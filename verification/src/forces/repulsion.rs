//! Repulsion: every pair of nodes pushes itself apart, with a force that
//! falls with the square of the distance.

use vstd::prelude::*;
use rand::rngs::SmallRng;
use crate::common::{all_wf, Node};
use crate::random::draw_below;
use crate::scalar::{
    lemma_sqrt_floor_bound,
    lemma_sqrt_floor_monotonic,
    lemma_sqrt_floor_zero,
    lemma_square_monotonic,
    lemma_trunc_div_sign,
    magnitude,
    Scalar,
    ONE_RAW,
    RANGE_MAX_RAW,
};
use crate::utils::{
    direction_of_draw,
    lemma_unit_direction_has_a_large_component,
    lemma_unit_direction_has_unit_length,
    unit_direction,
    ClampRange,
    DIRECTION_COUNT,
};
use crate::vector::Vec2;
use crate::verlet::VerletRes;

verus! {

/// The raw value of the shortest distance that repulsion reckons with: ten
/// units. Nodes that are closer repel each other as if they were that far
/// apart.
pub const REPULSION_DISTANCE_MIN_RAW: i64 = 0xA_0000_0000;

/// The strength of the repulsion.
#[derive(Clone, Copy, PartialEq, Eq, Structural, Debug)]
pub struct RepulsionConfig {
    pub strength: Scalar,
}

/// The draw for the node at `index`: the entry of the tape, and zero
/// beyond its end.
pub open spec fn draw_at(draws: Seq<u32>, index: int) -> u32 {
    if 0 <= index < draws.len() {
        draws[index]
    } else {
        0
    }
}

/// The distance between two nodes, limited from below to the shortest
/// distance that repulsion reckons with.
pub open spec fn repulsion_distance(source: Vec2, target: Vec2) -> Scalar {
    target.difference(source).range_clamped().norm().clamped(
        Scalar::Finite(REPULSION_DISTANCE_MIN_RAW),
        Scalar::Finite(RANGE_MAX_RAW),
    )
}

/// The direction of length one from `source` to `target`. Where the two
/// coincide there is no such direction, and the fallback direction that
/// `draw` selects takes its place.
pub open spec fn repulsion_heading(source: Vec2, target: Vec2, draw: u32) -> Vec2 {
    let heading = target.difference(source).range_clamped().direction();
    if heading.finite() {
        heading
    } else {
        unit_direction(draw)
    }
}

/// The magnitude of the repulsion at the given distance: the strength
/// times the effective square of the time step, divided by the square of
/// the distance.
pub open spec fn repulsion_magnitude(distance: Scalar, strength: Scalar, step_square: Scalar)
    -> Scalar {
    step_square.product(strength).range_clamped().quotient(
        distance.product(distance).range_clamped(),
    ).range_clamped()
}

/// The displacement that repulsion gives the target of a pair. The source
/// gets the negation.
pub open spec fn repulsion_displacement(
    source: Vec2,
    target: Vec2,
    cfg: RepulsionConfig,
    step_square: Scalar,
    draw: u32,
) -> Vec2 {
    repulsion_heading(source, target, draw).scaled(
        repulsion_magnitude(repulsion_distance(source, target), cfg.strength, step_square),
    ).range_clamped()
}

/// The table after the pair of the nodes at `i` and `j` has acted: the
/// node at `j` is moved by the displacement and the node at `i` by the
/// negation, each unless it is locked.
pub open spec fn repulsion_step(
    nodes: Seq<Node>,
    i: int,
    j: int,
    cfg: RepulsionConfig,
    step_square: Scalar,
    draw: u32,
) -> Seq<Node>
    recommends
        0 <= i < j < nodes.len(),
{
    let push = repulsion_displacement(nodes[i].position, nodes[j].position, cfg, step_square, draw);
    let pushed = if nodes[i].locked() {
        nodes
    } else {
        nodes.update(i, nodes[i].moved(push.negation()))
    };
    if nodes[j].locked() {
        pushed
    } else {
        pushed.update(j, nodes[j].moved(push))
    }
}

/// The table after the node at `i` has been paired with each later node
/// before `end`, in ascending order. The pair with the node at `j` takes
/// its draw from the tape at `j`.
pub open spec fn repulsion_row_upto(
    nodes: Seq<Node>,
    i: int,
    end: int,
    cfg: RepulsionConfig,
    step_square: Scalar,
    draws: Seq<u32>,
) -> Seq<Node>
    decreases end - i,
{
    if end <= i + 1 {
        nodes
    } else {
        repulsion_step(
            repulsion_row_upto(nodes, i, end - 1, cfg, step_square, draws),
            i,
            end - 1,
            cfg,
            step_square,
            draw_at(draws, end - 1),
        )
    }
}

/// The table after each of the first `rows` nodes has been paired with
/// every later node.
pub open spec fn repulsion_pass_upto(
    nodes: Seq<Node>,
    rows: int,
    cfg: RepulsionConfig,
    step_square: Scalar,
    draws: Seq<u32>,
) -> Seq<Node>
    decreases rows,
{
    if rows <= 0 {
        nodes
    } else {
        repulsion_row_upto(
            repulsion_pass_upto(nodes, rows - 1, cfg, step_square, draws),
            rows - 1,
            nodes.len() as int,
            cfg,
            step_square,
            draws,
        )
    }
}

/// The table after every pair of nodes has acted once: the pairs of the
/// first node in ascending order of the second, then those of the second
/// node, and so on. A later pair sees the positions that the earlier ones
/// left.
pub open spec fn repulsion_pass(
    nodes: Seq<Node>,
    cfg: RepulsionConfig,
    step_square: Scalar,
    draws: Seq<u32>,
) -> Seq<Node> {
    repulsion_pass_upto(nodes, nodes.len() as int, cfg, step_square, draws)
}

/// Computes the displacement that repulsion gives the target of a pair.
pub fn repulsion_force(
    source: Vec2,
    target: Vec2,
    cfg: &RepulsionConfig,
    step_square: Scalar,
    draw: u32,
) -> (push: Vec2)
    ensures
        push == repulsion_displacement(source, target, *cfg, step_square, draw),
{
    let direction = target.sub(source).clamp_range();
    let distance = direction.length().clamp(
        Scalar::Finite(REPULSION_DISTANCE_MIN_RAW),
        Scalar::Finite(RANGE_MAX_RAW),
    );
    let heading = direction.normalize();
    let heading = if heading.is_finite() {
        heading
    } else {
        direction_of_draw(draw)
    };
    let magnitude = step_square.mul(cfg.strength).clamp_range().div(
        distance.mul(distance).clamp_range(),
    ).clamp_range();
    heading.scale(magnitude).clamp_range()
}

/// Lets every pair of nodes push itself apart. Where two nodes coincide,
/// the pair is pushed apart along the fallback direction that the tape of
/// draws holds for the second of the two.
pub fn apply_repulsion_force_with(
    cfg: &RepulsionConfig,
    nodes: &mut Vec<Node>,
    verlet: &VerletRes,
    draws: &Vec<u32>,
)
    requires
        verlet.ready(),
    ensures
        final(nodes)@ == repulsion_pass(old(nodes)@, *cfg, verlet.squared(), draws@),
        final(nodes)@.len() == old(nodes)@.len(),
        all_wf(old(nodes)@) ==> all_wf(final(nodes)@),
{
    let step_square = verlet.delta_secs_squared();
    let count: usize = nodes.len();
    let mut i: usize = 0;
    while i < count
        invariant
            i <= count,
            nodes@.len() == count,
            old(nodes)@.len() == count,
            step_square == verlet.squared(),
            nodes@ == repulsion_pass_upto(old(nodes)@, i as int, *cfg, step_square, draws@),
            all_wf(old(nodes)@) ==> all_wf(nodes@),
        decreases count - i,
    {
        let ghost row_start = nodes@;
        let mut j: usize = i + 1;
        while j < count
            invariant
                i < j <= count,
                nodes@.len() == count,
                nodes@ == repulsion_row_upto(row_start, i as int, j as int, *cfg, step_square, draws@),
                all_wf(old(nodes)@) ==> all_wf(nodes@),
            decreases count - j,
        {
            let draw: u32 = if j < draws.len() {
                draws[j]
            } else {
                0
            };
            let source = nodes[i];
            let target = nodes[j];
            let push = repulsion_force(source.position, target.position, cfg, step_square, draw);
            let ghost before = nodes@;
            if !source.is_locked() {
                nodes.set(i, source.translate(push.neg()));
            }
            if !target.is_locked() {
                nodes.set(j, target.translate(push));
            }
            assert(nodes@ =~= repulsion_step(
                before,
                i as int,
                j as int,
                *cfg,
                step_square,
                draw_at(draws@, j as int),
            ));
            j += 1;
        }
        i += 1;
    }
}

/// Lets every pair of nodes push itself apart. Where two nodes coincide,
/// the pair is pushed apart along a random direction: before the pairs
/// act, one draw is made from `generator` for each node.
pub fn apply_repulsion_force(
    cfg: &RepulsionConfig,
    nodes: &mut Vec<Node>,
    verlet: &VerletRes,
    generator: &mut SmallRng,
)
    requires
        verlet.ready(),
    ensures
        exists|draws: Seq<u32>|
            draws.len() == old(nodes)@.len() && final(nodes)@ == #[trigger] repulsion_pass(
                old(nodes)@,
                *cfg,
                verlet.squared(),
                draws,
            ),
        final(nodes)@.len() == old(nodes)@.len(),
        all_wf(old(nodes)@) ==> all_wf(final(nodes)@),
{
    let draws = draw_tape(generator, nodes.len());
    apply_repulsion_force_with(cfg, nodes, verlet, &draws);
}

/// Makes `count` draws, each of which selects a fallback direction.
pub fn draw_tape(generator: &mut SmallRng, count: usize) -> (draws: Vec<u32>)
    ensures
        draws@.len() == count,
        forall|i: int| 0 <= i < count ==> (#[trigger] draws@[i]) < DIRECTION_COUNT,
{
    let mut draws: Vec<u32> = Vec::new();
    let mut i: usize = 0;
    while i < count
        invariant
            i <= count,
            draws@.len() == i,
            forall|k: int| 0 <= k < i ==> (#[trigger] draws@[k]) < DIRECTION_COUNT,
        decreases count - i,
    {
        let draw: u32 = draw_below(generator, DIRECTION_COUNT);
        draws.push(draw);
        i += 1;
    }
    draws
}

/// The distance between two positions.
pub open spec fn separation(a: Vec2, b: Vec2) -> Scalar {
    b.difference(a).norm()
}

/// Whether a strength is that of a repulsion and not of an attraction.
pub open spec fn repels(cfg: RepulsionConfig) -> bool {
    !(cfg.strength.finite() && cfg.strength.raw() < 0)
}

/// Whether a number can be the effective square of a time step.
pub open spec fn is_step_square(step_square: Scalar) -> bool {
    step_square.in_range() && step_square.raw() >= 0
}

/// The displacement of a pair points from the source to the target, axis
/// by axis, or is zero there.
proof fn lemma_displacement_points_away(
    source: Vec2,
    target: Vec2,
    cfg: RepulsionConfig,
    step_square: Scalar,
    draw: u32,
)
    requires
        source.in_range(),
        target.in_range(),
        repels(cfg),
        is_step_square(step_square),
        source != target,
        repulsion_displacement(source, target, cfg, step_square, draw).finite(),
    ensures
        ({
            let push = repulsion_displacement(source, target, cfg, step_square, draw);
            &&& push.in_range()
            &&& target.x.raw() >= source.x.raw() ==> push.x.raw() >= 0
            &&& target.x.raw() <= source.x.raw() ==> push.x.raw() <= 0
            &&& target.y.raw() >= source.y.raw() ==> push.y.raw() >= 0
            &&& target.y.raw() <= source.y.raw() ==> push.y.raw() <= 0
        }),
{
    let direction = target.difference(source).range_clamped();
    let length = direction.norm();
    let heading = direction.direction();
    let distance = repulsion_distance(source, target);
    let size = repulsion_magnitude(distance, cfg.strength, step_square);
    assert(direction.x.raw() != 0 || direction.y.raw() != 0);
    assert(direction.raw_square() > 0) by (nonlinear_arith)
        requires
            direction.x.raw() != 0 || direction.y.raw() != 0,
            direction.raw_square() == direction.x.raw() * direction.x.raw() + direction.y.raw()
                * direction.y.raw(),
    ;
    assert(direction.raw_square() < 0x4000_0000_0000_0000_0000_0000_0000_0000)
        by (nonlinear_arith)
        requires
            -0x2000_0000_0000_0000 <= direction.x.raw() <= 0x2000_0000_0000_0000,
            -0x2000_0000_0000_0000 <= direction.y.raw() <= 0x2000_0000_0000_0000,
            direction.raw_square() == direction.x.raw() * direction.x.raw() + direction.y.raw()
                * direction.y.raw(),
    ;
    lemma_sqrt_floor_zero(direction.raw_square());
    lemma_sqrt_floor_bound(direction.raw_square());
    assert(length.raw() > 0);
    assert(heading.finite());
    // The heading has the signs of the direction.
    assert(direction.x.raw() >= 0 ==> direction.x.raw() * ONE_RAW >= 0) by (nonlinear_arith);
    assert(direction.x.raw() <= 0 ==> direction.x.raw() * ONE_RAW <= 0) by (nonlinear_arith);
    assert(direction.y.raw() >= 0 ==> direction.y.raw() * ONE_RAW >= 0) by (nonlinear_arith);
    assert(direction.y.raw() <= 0 ==> direction.y.raw() * ONE_RAW <= 0) by (nonlinear_arith);
    lemma_trunc_div_sign(direction.x.raw() * ONE_RAW, length.raw());
    lemma_trunc_div_sign(direction.y.raw() * ONE_RAW, length.raw());
    // The magnitude is not negative.
    if size.finite() {
        let numerator = step_square.product(cfg.strength).range_clamped();
        let denominator = distance.product(distance).range_clamped();
        assert(step_square.raw() * cfg.strength.raw() >= 0) by (nonlinear_arith)
            requires
                step_square.raw() >= 0,
                cfg.strength.raw() >= 0,
        ;
        lemma_trunc_div_sign(step_square.raw() * cfg.strength.raw(), ONE_RAW as int);
        assert(distance.raw() * distance.raw() >= ONE_RAW) by (nonlinear_arith)
            requires
                distance.raw() >= REPULSION_DISTANCE_MIN_RAW,
                REPULSION_DISTANCE_MIN_RAW == 0xA_0000_0000,
                ONE_RAW == 0x1_0000_0000,
        ;
        assert((distance.raw() * distance.raw()) / (ONE_RAW as int) >= 1) by (nonlinear_arith)
            requires
                distance.raw() * distance.raw() >= ONE_RAW,
                ONE_RAW == 0x1_0000_0000,
        ;
        assert(denominator.raw() > 0);
        assert(numerator.raw() * ONE_RAW >= 0) by (nonlinear_arith)
            requires
                numerator.raw() >= 0,
                ONE_RAW > 0,
        ;
        lemma_trunc_div_sign(numerator.raw() * ONE_RAW, denominator.raw());
        assert(size.raw() >= 0);
        assert(heading.x.raw() >= 0 ==> heading.x.raw() * size.raw() >= 0) by (nonlinear_arith)
            requires
                size.raw() >= 0,
        ;
        assert(heading.x.raw() <= 0 ==> heading.x.raw() * size.raw() <= 0) by (nonlinear_arith)
            requires
                size.raw() >= 0,
        ;
        assert(heading.y.raw() >= 0 ==> heading.y.raw() * size.raw() >= 0) by (nonlinear_arith)
            requires
                size.raw() >= 0,
        ;
        assert(heading.y.raw() <= 0 ==> heading.y.raw() * size.raw() <= 0) by (nonlinear_arith)
            requires
                size.raw() >= 0,
        ;
        lemma_trunc_div_sign(heading.x.raw() * size.raw(), ONE_RAW as int);
        lemma_trunc_div_sign(heading.y.raw() * size.raw(), ONE_RAW as int);
    }
}

/// Two coordinates that are pushed apart, or left alone, are at least as
/// far apart afterwards.
proof fn lemma_axis_moves_apart(a: Scalar, b: Scalar, push: Scalar, a_after: Scalar, b_after: Scalar)
    requires
        a.in_range(),
        b.in_range(),
        push.in_range(),
        b.raw() > a.raw() ==> push.raw() >= 0,
        b.raw() < a.raw() ==> push.raw() <= 0,
        a_after == a || a_after == a.sum(push.negation()).range_clamped(),
        b_after == b || b_after == b.sum(push).range_clamped(),
    ensures
        a_after.in_range(),
        b_after.in_range(),
        magnitude(b_after.raw() - a_after.raw()) >= magnitude(b.raw() - a.raw()),
        magnitude(b_after.difference(a_after).raw()) >= magnitude(b.difference(a).raw()),
{
}

/// Repulsion never brings the two nodes of a pair closer to each other:
/// along each axis, and so in all, they are at least as far apart after
/// the pair has acted as they were before. Both stay well formed.
pub proof fn lemma_repulsion_never_closes_in(
    nodes: Seq<Node>,
    i: int,
    j: int,
    cfg: RepulsionConfig,
    step_square: Scalar,
    draw: u32,
)
    requires
        0 <= i < j < nodes.len(),
        nodes[i].wf(),
        nodes[j].wf(),
        repels(cfg),
        is_step_square(step_square),
    ensures
        ({
            let after = repulsion_step(nodes, i, j, cfg, step_square, draw);
            &&& after.len() == nodes.len()
            &&& after[i].wf()
            &&& after[j].wf()
            &&& forall|k: int| 0 <= k < nodes.len() && k != i && k != j ==> after[k] == nodes[k]
            &&& magnitude(after[j].position.x.raw() - after[i].position.x.raw()) >= magnitude(
                nodes[j].position.x.raw() - nodes[i].position.x.raw(),
            )
            &&& magnitude(after[j].position.y.raw() - after[i].position.y.raw()) >= magnitude(
                nodes[j].position.y.raw() - nodes[i].position.y.raw(),
            )
            &&& separation(after[i].position, after[j].position).raw() >= separation(
                nodes[i].position,
                nodes[j].position,
            ).raw()
        }),
{
    let source = nodes[i].position;
    let target = nodes[j].position;
    let push = repulsion_displacement(source, target, cfg, step_square, draw);
    let after = repulsion_step(nodes, i, j, cfg, step_square, draw);
    let before_gap = target.difference(source);
    let after_gap = after[j].position.difference(after[i].position);
    if push.finite() {
        if source != target {
            lemma_displacement_points_away(source, target, cfg, step_square, draw);
        }
        assert(push.in_range());
        assert(after[i].position == source || after[i].position == source.sum(
            push.negation(),
        ).range_clamped());
        assert(after[j].position == target || after[j].position == target.sum(
            push,
        ).range_clamped());
        lemma_axis_moves_apart(
            source.x,
            target.x,
            push.x,
            after[i].position.x,
            after[j].position.x,
        );
        lemma_axis_moves_apart(
            source.y,
            target.y,
            push.y,
            after[i].position.y,
            after[j].position.y,
        );
    } else {
        assert(after[i].position == source);
        assert(after[j].position == target);
    }
    assert(magnitude(after_gap.x.raw()) >= magnitude(before_gap.x.raw()));
    assert(magnitude(after_gap.y.raw()) >= magnitude(before_gap.y.raw()));
    lemma_square_monotonic(before_gap.x.raw(), after_gap.x.raw());
    lemma_square_monotonic(before_gap.y.raw(), after_gap.y.raw());
    assert(before_gap.raw_square() >= 0) by (nonlinear_arith)
        requires
            before_gap.raw_square() == before_gap.x.raw() * before_gap.x.raw()
                + before_gap.y.raw() * before_gap.y.raw(),
    ;
    lemma_sqrt_floor_monotonic(before_gap.raw_square(), after_gap.raw_square());
}

/// Two free nodes at one position are apart after one pair step of
/// repulsion, whatever fallback direction is drawn, as long as the
/// repulsion at the shortest distance comes to two raw units or more. Both
/// stay well formed.
pub proof fn lemma_coincident_nodes_part(
    nodes: Seq<Node>,
    i: int,
    j: int,
    cfg: RepulsionConfig,
    step_square: Scalar,
    draw: u32,
)
    requires
        0 <= i < j < nodes.len(),
        nodes[i].wf(),
        nodes[j].wf(),
        !nodes[i].locked(),
        !nodes[j].locked(),
        nodes[i].position == nodes[j].position,
        repulsion_magnitude(
            Scalar::Finite(REPULSION_DISTANCE_MIN_RAW),
            cfg.strength,
            step_square,
        ).finite(),
        repulsion_magnitude(
            Scalar::Finite(REPULSION_DISTANCE_MIN_RAW),
            cfg.strength,
            step_square,
        ).raw() >= 2,
    ensures
        ({
            let after = repulsion_step(nodes, i, j, cfg, step_square, draw);
            &&& after[i].wf()
            &&& after[j].wf()
            &&& after[i].position != after[j].position
        }),
{
    let at = nodes[i].position;
    let size = repulsion_magnitude(
        Scalar::Finite(REPULSION_DISTANCE_MIN_RAW),
        cfg.strength,
        step_square,
    );
    let direction = at.difference(at).range_clamped();
    assert(direction.raw_square() == 0) by (nonlinear_arith)
        requires
            direction.x.raw() == 0,
            direction.y.raw() == 0,
            direction.raw_square() == direction.x.raw() * direction.x.raw() + direction.y.raw()
                * direction.y.raw(),
    ;
    lemma_sqrt_floor_zero(0);
    assert(direction.norm() == Scalar::Finite(0));
    assert(repulsion_distance(at, at) == Scalar::Finite(REPULSION_DISTANCE_MIN_RAW));
    assert(repulsion_heading(at, at, draw) == unit_direction(draw));
    let heading = unit_direction(draw);
    lemma_unit_direction_has_unit_length(draw);
    lemma_unit_direction_has_a_large_component(draw);
    let push = repulsion_displacement(at, at, cfg, step_square, draw);
    assert(magnitude(heading.x.raw() * size.raw()) >= ONE_RAW || magnitude(
        heading.y.raw() * size.raw(),
    ) >= ONE_RAW) by (nonlinear_arith)
        requires
            magnitude(heading.x.raw()) >= 3037000500 || magnitude(heading.y.raw()) >= 3037000500,
            size.raw() >= 2,
            ONE_RAW == 0x1_0000_0000,
    ;
    assert(magnitude(heading.x.raw() * size.raw()) <= ONE_RAW * size.raw() && magnitude(
        heading.y.raw() * size.raw(),
    ) <= ONE_RAW * size.raw()) by (nonlinear_arith)
        requires
            -ONE_RAW <= heading.x.raw() <= ONE_RAW,
            -ONE_RAW <= heading.y.raw() <= ONE_RAW,
            size.raw() >= 2,
            ONE_RAW == 0x1_0000_0000,
    ;
    let wide_x = magnitude(heading.x.raw() * size.raw());
    let wide_y = magnitude(heading.y.raw() * size.raw());
    assert(wide_x >= ONE_RAW ==> wide_x / (ONE_RAW as int) >= 1) by (nonlinear_arith)
        requires
            ONE_RAW == 0x1_0000_0000,
    ;
    assert(wide_y >= ONE_RAW ==> wide_y / (ONE_RAW as int) >= 1) by (nonlinear_arith)
        requires
            ONE_RAW == 0x1_0000_0000,
    ;
    assert(wide_x / (ONE_RAW as int) <= size.raw()) by (nonlinear_arith)
        requires
            0 <= wide_x <= ONE_RAW * size.raw(),
            ONE_RAW == 0x1_0000_0000,
    ;
    assert(wide_y / (ONE_RAW as int) <= size.raw()) by (nonlinear_arith)
        requires
            0 <= wide_y <= ONE_RAW * size.raw(),
            ONE_RAW == 0x1_0000_0000,
    ;
    assert(push.finite());
    assert(push.x.raw() != 0 || push.y.raw() != 0);
}

/// The table after `ticks` passes of repulsion, the pass at `k` with the
/// effective square of the time step at `k` and the tape of draws at `k`.
pub open spec fn repelled_repeatedly(
    nodes: Seq<Node>,
    cfg: RepulsionConfig,
    step_squares: Seq<Scalar>,
    tapes: Seq<Seq<u32>>,
    ticks: nat,
) -> Seq<Node>
    decreases ticks,
{
    if ticks == 0 {
        nodes
    } else {
        repulsion_pass(
            repelled_repeatedly(nodes, cfg, step_squares, tapes, (ticks - 1) as nat),
            cfg,
            step_squares[ticks - 1],
            tapes[ticks - 1],
        )
    }
}

/// One pass of repulsion over a table of two nodes is the one step of
/// their pair.
pub proof fn lemma_pass_of_two(
    nodes: Seq<Node>,
    cfg: RepulsionConfig,
    step_square: Scalar,
    draws: Seq<u32>,
)
    requires
        nodes.len() == 2,
    ensures
        repulsion_pass(nodes, cfg, step_square, draws) == repulsion_step(
            nodes,
            0,
            1,
            cfg,
            step_square,
            draw_at(draws, 1),
        ),
{
    reveal_with_fuel(repulsion_pass_upto, 3);
    reveal_with_fuel(repulsion_row_upto, 3);
    let first = repulsion_row_upto(nodes, 0, 2, cfg, step_square, draws);
    assert(first == repulsion_step(nodes, 0, 1, cfg, step_square, draw_at(draws, 1)));
    assert(first.len() == 2);
    assert(repulsion_pass_upto(nodes, 1, cfg, step_square, draws) == first);
    assert(repulsion_pass_upto(nodes, 2, cfg, step_square, draws) == repulsion_row_upto(
        first,
        1,
        2,
        cfg,
        step_square,
        draws,
    ));
}

/// However many ticks of repulsion act on two nodes, the two never come
/// closer to each other than they were, and every coordinate stays finite
/// and within the safe operating range. So two nodes that are as far
/// apart as the shortest distance that repulsion reckons with, or farther,
/// stay so.
pub proof fn lemma_repeated_repulsion_keeps_the_distance(
    nodes: Seq<Node>,
    cfg: RepulsionConfig,
    step_squares: Seq<Scalar>,
    tapes: Seq<Seq<u32>>,
    ticks: nat,
)
    requires
        nodes.len() == 2,
        all_wf(nodes),
        repels(cfg),
        ticks <= step_squares.len(),
        forall|k: int| 0 <= k < ticks ==> is_step_square(#[trigger] step_squares[k]),
    ensures
        ({
            let after = repelled_repeatedly(nodes, cfg, step_squares, tapes, ticks);
            &&& after.len() == 2
            &&& all_wf(after)
            &&& separation(after[0].position, after[1].position).raw() >= separation(
                nodes[0].position,
                nodes[1].position,
            ).raw()
            &&& separation(nodes[0].position, nodes[1].position).raw()
                >= REPULSION_DISTANCE_MIN_RAW ==> separation(
                after[0].position,
                after[1].position,
            ).raw() >= REPULSION_DISTANCE_MIN_RAW
        }),
    decreases ticks,
{
    if ticks > 0 {
        lemma_repeated_repulsion_keeps_the_distance(
            nodes,
            cfg,
            step_squares,
            tapes,
            (ticks - 1) as nat,
        );
        let before = repelled_repeatedly(nodes, cfg, step_squares, tapes, (ticks - 1) as nat);
        lemma_pass_of_two(before, cfg, step_squares[ticks - 1], tapes[ticks - 1]);
        lemma_repulsion_never_closes_in(
            before,
            0,
            1,
            cfg,
            step_squares[ticks - 1],
            draw_at(tapes[ticks - 1], 1),
        );
    }
}

/// Repulsion moves positions and nothing else: after the pairs of one
/// node the table has as many nodes as before, every node has its lock
/// state and its previous position, and every locked node is where it was.
pub proof fn lemma_row_leaves_locked_nodes(
    nodes: Seq<Node>,
    i: int,
    end: int,
    cfg: RepulsionConfig,
    step_square: Scalar,
    draws: Seq<u32>,
)
    requires
        0 <= i,
        end <= nodes.len(),
    ensures
        ({
            let after = repulsion_row_upto(nodes, i, end, cfg, step_square, draws);
            &&& after.len() == nodes.len()
            &&& forall|k: int|
                0 <= k < nodes.len() ==> (#[trigger] after[k]).lock == nodes[k].lock
                    && after[k].physics == nodes[k].physics
            &&& forall|k: int|
                0 <= k < nodes.len() && nodes[k].locked() ==> #[trigger] after[k] == nodes[k]
        }),
    decreases end - i,
{
    if end > i + 1 {
        lemma_row_leaves_locked_nodes(nodes, i, end - 1, cfg, step_square, draws);
    }
}

/// Repulsion moves positions and nothing else: after a pass the table has
/// as many nodes as before, every node has its lock state and its previous
/// position, and every locked node is where it was.
pub proof fn lemma_repulsion_leaves_locked_nodes(
    nodes: Seq<Node>,
    rows: int,
    cfg: RepulsionConfig,
    step_square: Scalar,
    draws: Seq<u32>,
)
    requires
        rows <= nodes.len(),
    ensures
        ({
            let after = repulsion_pass_upto(nodes, rows, cfg, step_square, draws);
            &&& after.len() == nodes.len()
            &&& forall|k: int|
                0 <= k < nodes.len() ==> (#[trigger] after[k]).lock == nodes[k].lock
                    && after[k].physics == nodes[k].physics
            &&& forall|k: int|
                0 <= k < nodes.len() && nodes[k].locked() ==> #[trigger] after[k] == nodes[k]
        }),
    decreases rows,
{
    if rows > 0 {
        lemma_repulsion_leaves_locked_nodes(nodes, rows - 1, cfg, step_square, draws);
        let before = repulsion_pass_upto(nodes, rows - 1, cfg, step_square, draws);
        lemma_row_leaves_locked_nodes(
            before,
            rows - 1,
            nodes.len() as int,
            cfg,
            step_square,
            draws,
        );
    }
}

} // verus!
