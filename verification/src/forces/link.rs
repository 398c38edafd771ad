//! The link force: a spring between the two ends of each link.

use vstd::prelude::*;
use crate::common::{all_valid, all_wf, Node, NodeLink};
use crate::scalar::{Scalar, ONE_RAW, RANGE_MAX_RAW};
use crate::utils::ClampRange;
use crate::vector::Vec2;
use crate::verlet::VerletRes;

verus! {

/// The raw value of the shortest distance that the spring reckons with.
pub const LINK_DISTANCE_MIN_RAW: i64 = ONE_RAW;

/// The strength of the springs.
#[derive(Clone, Copy, PartialEq, Eq, Structural, Debug)]
pub struct LinkConfig {
    /// The force of a spring that is stretched to twice its rest length.
    pub strength: Scalar,
    /// The cap on the extension of a spring relative to its length.
    pub strength_max: Scalar,
}

/// The vector from the source of a link to its target.
pub open spec fn link_direction(source: Vec2, target: Vec2) -> Vec2 {
    target.difference(source).range_clamped()
}

/// The distance between the two ends of a link, limited to a range that
/// excludes zero.
pub open spec fn link_distance(source: Vec2, target: Vec2) -> Scalar {
    link_direction(source, target).norm().clamped(
        Scalar::Finite(LINK_DISTANCE_MIN_RAW),
        Scalar::Finite(RANGE_MAX_RAW),
    )
}

/// The signed magnitude of the spring force at the given distance: the
/// strength times the extension relative to the distance, which is capped.
/// It is positive for a stretched spring and negative for a compressed one.
pub open spec fn link_magnitude(distance: Scalar, target_distance: Scalar, cfg: LinkConfig)
    -> Scalar {
    let extension = distance.difference(target_distance).range_clamped();
    let relative = extension.absolute().quotient(distance).range_clamped().minimum(
        cfg.strength_max,
    );
    cfg.strength.product(
        if extension.raw() < 0 {
            relative.negation()
        } else {
            relative
        },
    ).range_clamped()
}

/// The displacement that a link gives its source in a time step whose
/// effective square is `step_square`. Its target gets the negation.
pub open spec fn link_displacement(
    source: Vec2,
    target: Vec2,
    target_distance: Scalar,
    cfg: LinkConfig,
    step_square: Scalar,
) -> Vec2 {
    link_direction(source, target).scaled(
        link_magnitude(link_distance(source, target), target_distance, cfg),
    ).range_clamped().scaled(step_square).range_clamped()
}

/// The table after one link has acted: its source is moved by the
/// displacement and its target by the negation, each unless it is locked.
pub open spec fn link_step(nodes: Seq<Node>, link: NodeLink, cfg: LinkConfig, step_square: Scalar)
    -> Seq<Node>
    recommends
        link.valid_for(nodes.len()),
{
    let source = nodes[link.source as int];
    let target = nodes[link.target as int];
    let push = link_displacement(
        source.position,
        target.position,
        link.target_distance,
        cfg,
        step_square,
    );
    let pulled = if source.locked() {
        nodes
    } else {
        nodes.update(link.source as int, source.moved(push))
    };
    if target.locked() {
        pulled
    } else {
        pulled.update(link.target as int, target.moved(push.negation()))
    }
}

/// The table after the first `count` links have acted, one after the other.
pub open spec fn link_pass_upto(
    nodes: Seq<Node>,
    links: Seq<NodeLink>,
    cfg: LinkConfig,
    step_square: Scalar,
    count: nat,
) -> Seq<Node>
    decreases count,
{
    if count == 0 {
        nodes
    } else {
        link_step(
            link_pass_upto(nodes, links, cfg, step_square, (count - 1) as nat),
            links[count - 1],
            cfg,
            step_square,
        )
    }
}

/// The table after every link has acted, in the order of the link table.
/// A later link sees the positions that the earlier ones left.
pub open spec fn link_pass(
    nodes: Seq<Node>,
    links: Seq<NodeLink>,
    cfg: LinkConfig,
    step_square: Scalar,
) -> Seq<Node> {
    link_pass_upto(nodes, links, cfg, step_square, links.len())
}

/// Computes the displacement that a link gives its source.
pub fn link_force(
    source: Vec2,
    target: Vec2,
    target_distance: Scalar,
    cfg: &LinkConfig,
    step_square: Scalar,
) -> (push: Vec2)
    ensures
        push == link_displacement(source, target, target_distance, *cfg, step_square),
{
    let direction = target.sub(source).clamp_range();
    let distance = direction.length().clamp(
        Scalar::Finite(LINK_DISTANCE_MIN_RAW),
        Scalar::Finite(RANGE_MAX_RAW),
    );
    let extension = distance.sub(target_distance).clamp_range();
    let relative = extension.abs().div(distance).clamp_range().min(cfg.strength_max);
    let signed = if extension.is_negative() {
        relative.neg()
    } else {
        relative
    };
    let magnitude = cfg.strength.mul(signed).clamp_range();
    direction.scale(magnitude).clamp_range().scale(step_square).clamp_range()
}

/// Lets every link pull its two ends towards its rest length, or push them
/// apart to it.
pub fn apply_link_force(
    cfg: &LinkConfig,
    links: &Vec<NodeLink>,
    nodes: &mut Vec<Node>,
    verlet: &VerletRes,
)
    requires
        verlet.ready(),
        all_valid(links@, old(nodes)@.len()),
    ensures
        final(nodes)@ == link_pass(old(nodes)@, links@, *cfg, verlet.squared()),
        final(nodes)@.len() == old(nodes)@.len(),
        all_wf(old(nodes)@) ==> all_wf(final(nodes)@),
{
    let step_square = verlet.delta_secs_squared();
    let count: usize = links.len();
    let mut k: usize = 0;
    while k < count
        invariant
            k <= count,
            count == links@.len(),
            nodes@.len() == old(nodes)@.len(),
            all_valid(links@, nodes@.len()),
            step_square == verlet.squared(),
            nodes@ == link_pass_upto(old(nodes)@, links@, *cfg, step_square, k as nat),
            all_wf(old(nodes)@) ==> all_wf(nodes@),
        decreases count - k,
    {
        let link = links[k];
        let source = nodes[link.source];
        let target = nodes[link.target];
        let push = link_force(
            source.position,
            target.position,
            link.target_distance,
            cfg,
            step_square,
        );
        let ghost before = nodes@;
        if !source.is_locked() {
            nodes.set(link.source, source.translate(push));
        }
        if !target.is_locked() {
            nodes.set(link.target, target.translate(push.neg()));
        }
        assert(nodes@ =~= link_step(before, link, *cfg, step_square));
        k += 1;
    }
}

/// A link displaces its two ends by opposite amounts: where both ends are
/// free and neither is stopped at the edge of the safe operating range,
/// what the link adds to the position of its source is the negation of
/// what it adds to the position of its target.
pub proof fn lemma_link_displaces_its_ends_oppositely(
    nodes: Seq<Node>,
    link: NodeLink,
    cfg: LinkConfig,
    step_square: Scalar,
)
    requires
        link.valid_for(nodes.len()),
        nodes[link.source as int].wf(),
        nodes[link.target as int].wf(),
        !nodes[link.source as int].locked(),
        !nodes[link.target as int].locked(),
        nodes[link.source as int].position.sum(
            link_displacement(
                nodes[link.source as int].position,
                nodes[link.target as int].position,
                link.target_distance,
                cfg,
                step_square,
            ),
        ).in_range(),
        nodes[link.target as int].position.sum(
            link_displacement(
                nodes[link.source as int].position,
                nodes[link.target as int].position,
                link.target_distance,
                cfg,
                step_square,
            ).negation(),
        ).in_range(),
    ensures
        ({
            let after = link_step(nodes, link, cfg, step_square);
            let push = link_displacement(
                nodes[link.source as int].position,
                nodes[link.target as int].position,
                link.target_distance,
                cfg,
                step_square,
            );
            &&& after[link.source as int].position.difference(nodes[link.source as int].position)
                == push
            &&& after[link.target as int].position.difference(nodes[link.target as int].position)
                == push.negation()
            &&& after[link.source as int].position.difference(nodes[link.source as int].position)
                == after[link.target as int].position.difference(
                nodes[link.target as int].position,
            ).negation()
        }),
{
}

/// The links move positions and nothing else: after any number of links
/// the table has as many nodes as before, every node has its lock state
/// and its previous position, and every locked node is where it was.
pub proof fn lemma_links_leave_locked_nodes(
    nodes: Seq<Node>,
    links: Seq<NodeLink>,
    cfg: LinkConfig,
    step_square: Scalar,
    count: nat,
)
    requires
        count <= links.len(),
        all_valid(links, nodes.len()),
    ensures
        ({
            let after = link_pass_upto(nodes, links, cfg, step_square, count);
            &&& after.len() == nodes.len()
            &&& forall|i: int|
                0 <= i < nodes.len() ==> (#[trigger] after[i]).lock == nodes[i].lock
                    && after[i].physics == nodes[i].physics
            &&& forall|i: int|
                0 <= i < nodes.len() && nodes[i].locked() ==> #[trigger] after[i] == nodes[i]
        }),
    decreases count,
{
    if count > 0 {
        lemma_links_leave_locked_nodes(nodes, links, cfg, step_square, (count - 1) as nat);
        assert(links[count - 1].valid_for(nodes.len()));
    }
}

} // verus!
