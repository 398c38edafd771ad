//! The record of recent time steps, and the integration step that it serves.

use std::collections::VecDeque;
use vstd::prelude::*;
use crate::common::{all_wf, LockState, MouseLocked, Node, NodePhysics};
use crate::forces::{each_node, update_each};
use crate::scalar::{Scalar, ONE_RAW};
use crate::utils::{ClampRange, FiniteOr};
use crate::vector::Vec2;

verus! {

/// The raw value of the time step that stands in for an unusable one: a
/// hundredth of a second.
pub const FALLBACK_DELTA_RAW: i64 = 42949673;

/// The raw value of one half.
pub const HALF_RAW: i64 = 0x8000_0000;

/// The raw value of the weight that the estimate of the velocity of a
/// locked node gives to its earlier value: nine tenths.
pub const ESTIMATE_KEEP_RAW: i64 = 3865470566;

/// The raw value of the weight that the estimate of the velocity of a
/// locked node gives to the newest displacement: one tenth.
pub const ESTIMATE_GAIN_RAW: i64 = 429496730;

/// The two most recent time steps, the newest first. Before the first
/// update there is none.
pub struct VerletRes {
    time_deltas: VecDeque<Scalar>,
}

/// A time step as it is recorded: a step that is undefined, zero or
/// negative is replaced by the fallback step, and a larger one is limited
/// to the safe operating range.
pub open spec fn recorded_delta(delta: Scalar) -> Scalar {
    if delta.finite() && delta.raw() > 0 {
        delta.range_clamped()
    } else {
        Scalar::Finite(FALLBACK_DELTA_RAW)
    }
}

/// The record after `delta` was observed: the first step fills both
/// places, and a later one pushes the older of the two out.
pub open spec fn record_after(deltas: Seq<Scalar>, delta: Scalar) -> Seq<Scalar> {
    if deltas.len() == 0 {
        seq![recorded_delta(delta), recorded_delta(delta)]
    } else {
        seq![recorded_delta(delta), deltas[0]]
    }
}

/// The effective square of the time step for steps `newest` and `previous`:
/// half their sum, times the newest.
pub open spec fn effective_square(newest: Scalar, previous: Scalar) -> Scalar {
    newest.sum(previous).range_clamped().product(
        Scalar::Finite(HALF_RAW),
    ).range_clamped().product(newest).range_clamped()
}

/// The factor by which the newest step is longer than the previous one,
/// and one where that quotient is undefined.
pub open spec fn step_ratio(newest: Scalar, previous: Scalar) -> Scalar {
    if newest.quotient(previous).finite() {
        newest.quotient(previous)
    } else {
        Scalar::Finite(ONE_RAW)
    }
}

impl Default for VerletRes {
    /// The empty record.
    fn default() -> (r: VerletRes)
        ensures
            r.wf(),
            r.deltas().len() == 0,
    {
        VerletRes::new()
    }
}

impl VerletRes {
    /// The recorded time steps, the newest first.
    pub closed spec fn deltas(self) -> Seq<Scalar> {
        self.time_deltas@
    }

    /// Whether a time step is one that the record can hold.
    pub open spec fn usable(delta: Scalar) -> bool {
        delta.in_range() && delta.raw() > 0
    }

    /// The record holds no step or two, and each is positive and within the
    /// safe operating range.
    pub open spec fn wf(self) -> bool {
        &&& (self.deltas().len() == 0 || self.deltas().len() == 2)
        &&& forall|i: int| 0 <= i < self.deltas().len() ==> VerletRes::usable(#[trigger] self.deltas()[i])
    }

    /// Whether a time step was recorded.
    pub open spec fn ready(self) -> bool {
        self.wf() && self.deltas().len() == 2
    }

    /// The newest time step of a record that is ready.
    pub open spec fn newest(self) -> Scalar {
        self.deltas()[0]
    }

    /// The effective square of the time step of a record that is ready.
    pub open spec fn squared(self) -> Scalar {
        effective_square(self.deltas()[0], self.deltas()[1])
    }

    /// The factor that scales a displacement of the previous time step to
    /// the newest, for a record that is ready.
    pub open spec fn factor(self) -> Scalar {
        step_ratio(self.deltas()[0], self.deltas()[1])
    }

    /// The mean of the `n` newest steps of a record that is ready, and of
    /// both where `n` is more than two. The mean of no step is undefined.
    pub open spec fn average(self, n: usize) -> Scalar {
        if n == 0 {
            Scalar::NonFinite
        } else if n == 1 {
            self.deltas()[0]
        } else {
            self.deltas()[0].sum(self.deltas()[1]).range_clamped().quotient(
                Scalar::Finite((2 * ONE_RAW) as i64),
            ).range_clamped()
        }
    }

    /// The empty record.
    pub fn new() -> (r: VerletRes)
        ensures
            r.wf(),
            r.deltas().len() == 0,
    {
        VerletRes { time_deltas: VecDeque::new() }
    }

    /// Whether a time step was recorded.
    pub fn is_ready(&self) -> (r: bool)
        requires
            self.wf(),
        ensures
            r == self.ready(),
    {
        self.time_deltas.len() == 2
    }

    /// Records a new time step. The first step fills both places of the
    /// record.
    pub fn update(&mut self, delta: Scalar)
        requires
            old(self).wf(),
        ensures
            final(self).deltas() == record_after(old(self).deltas(), delta),
            final(self).ready(),
    {
        let recorded = if Scalar::zero().lt(delta) {
            delta.clamp_range()
        } else {
            Scalar::Finite(FALLBACK_DELTA_RAW)
        };
        if self.time_deltas.len() == 0 {
            self.time_deltas.push_back(recorded);
            self.time_deltas.push_back(recorded);
        } else {
            self.time_deltas.push_front(recorded);
            self.time_deltas.truncate(2);
        }
        assert(self.time_deltas@ =~= record_after(old(self).deltas(), delta));
    }

    /// The newest time step.
    pub fn delta_secs(&self) -> (r: Scalar)
        requires
            self.ready(),
        ensures
            r == self.newest(),
            VerletRes::usable(r),
    {
        self.time_deltas[0]
    }

    /// The mean of the `n` newest time steps.
    pub fn average_time_delta(&self, n: usize) -> (r: Scalar)
        requires
            self.ready(),
        ensures
            r == self.average(n),
    {
        let newest = self.time_deltas[0];
        let previous = self.time_deltas[1];
        if n == 0 {
            Scalar::zero().div(Scalar::zero()).clamp_range()
        } else if n == 1 {
            proof {
                crate::scalar::lemma_trunc_div_multiple(newest.raw(), ONE_RAW as int);
            }
            newest.clamp_range().div(Scalar::one()).clamp_range()
        } else {
            newest.add(previous).clamp_range().div(Scalar::from_whole(2)).clamp_range()
        }
    }

    /// The effective square of the time step, which allows for steps of
    /// different lengths.
    pub fn delta_secs_squared(&self) -> (r: Scalar)
        requires
            self.ready(),
        ensures
            r == self.squared(),
            r.in_range(),
            r.raw() >= 0,
    {
        let newest = self.time_deltas[0];
        let previous = self.time_deltas[1];
        newest.add(previous).clamp_range().mul(Scalar::Finite(HALF_RAW)).clamp_range().mul(
            newest,
        ).clamp_range()
    }

    /// The factor that scales the previous displacement of a node to the
    /// newest time step.
    pub fn velocity_factor(&self) -> (r: Scalar)
        requires
            self.ready(),
        ensures
            r == self.factor(),
            r.finite(),
    {
        let newest = self.time_deltas[0];
        let previous = self.time_deltas[1];
        newest.div(previous).finite_or(Scalar::one())
    }
}

/// The position that inertia takes a node to: its position plus its
/// previous displacement, scaled to the newest time step by `factor` and
/// damped by `decay`. Where that position has an undefined coordinate, the
/// node stays where it is.
pub open spec fn coasted(position: Vec2, previous: Vec2, factor: Scalar, decay: Scalar) -> Vec2 {
    let next = position.sum(
        position.difference(previous).range_clamped().scaled(factor).range_clamped().scaled(
            decay,
        ).range_clamped(),
    ).range_clamped();
    if next.finite() {
        next
    } else {
        position
    }
}

/// The estimate of the velocity of a locked node after one more tick:
/// nine tenths of the earlier estimate plus one tenth of the displacement
/// that inertia would have given the node. Where that has an undefined
/// coordinate, the earlier estimate stays.
pub open spec fn estimated(velocity: Vec2, displacement: Vec2) -> Vec2 {
    let next = velocity.scaled(Scalar::Finite(ESTIMATE_KEEP_RAW)).sum(
        displacement.scaled(Scalar::Finite(ESTIMATE_GAIN_RAW)),
    ).range_clamped();
    if next.finite() {
        next
    } else {
        velocity
    }
}

/// The node after one step of the integration. A free node coasts. A
/// locked node stays, and the estimate of its velocity takes in the
/// displacement that it would have coasted by. Either way the position
/// before the step becomes the previous position.
pub open spec fn integrated(node: Node, factor: Scalar, decay: Scalar) -> Node {
    let next = coasted(node.position, node.physics.previous_position, factor, decay);
    match node.lock {
        LockState::Free => Node {
            position: next,
            physics: NodePhysics { previous_position: node.position },
            lock: LockState::Free,
        },
        LockState::Locked(mark) => Node {
            position: node.position,
            physics: NodePhysics { previous_position: node.position },
            lock: LockState::Locked(
                MouseLocked { velocity: estimated(mark.velocity, next.difference(node.position)) },
            ),
        },
    }
}

/// Advances one node by one step of the integration.
pub fn integrate(node: Node, factor: Scalar, decay: Scalar) -> (r: Node)
    ensures
        r == integrated(node, factor, decay),
{
    let position = node.position;
    let next = position.add(
        position.sub(node.physics.previous_position).clamp_range().scale(
            factor,
        ).clamp_range().scale(decay).clamp_range(),
    ).clamp_range().finite_or(position);
    match node.lock {
        LockState::Free => Node {
            position: next,
            physics: NodePhysics { previous_position: position },
            lock: LockState::Free,
        },
        LockState::Locked(mark) => {
            let velocity = mark.velocity.scale(Scalar::Finite(ESTIMATE_KEEP_RAW)).add(
                next.sub(position).scale(Scalar::Finite(ESTIMATE_GAIN_RAW)),
            ).clamp_range().finite_or(mark.velocity);
            Node {
                position,
                physics: NodePhysics { previous_position: position },
                lock: LockState::Locked(MouseLocked { velocity }),
            }
        },
    }
}

/// Advances every node by one step of the integration: free nodes coast
/// on with the velocity that their last two positions imply, damped by
/// `velocity_decay`.
pub fn apply_velocity(velocity_decay: Scalar, nodes: &mut Vec<Node>, verlet: &VerletRes)
    requires
        verlet.ready(),
    ensures
        final(nodes)@ == each_node(
            old(nodes)@,
            |node: Node| integrated(node, verlet.factor(), velocity_decay),
        ),
        all_wf(old(nodes)@) ==> all_wf(final(nodes)@),
{
    let factor = verlet.velocity_factor();
    let change = |node: Node| -> (r: Node)
        ensures
            r == integrated(node, factor, velocity_decay),
        { integrate(node, factor, velocity_decay) };
    update_each(nodes, change);
    assert(nodes@ =~= each_node(
        old(nodes)@,
        |node: Node| integrated(node, verlet.factor(), velocity_decay),
    ));
}

/// Whatever is observed, the step that is recorded is positive and within
/// the safe operating range; for an observed step of zero it is the
/// fallback step.
pub proof fn lemma_recorded_delta_is_usable(delta: Scalar)
    ensures
        VerletRes::usable(recorded_delta(delta)),
        delta == Scalar::Finite(0) ==> recorded_delta(delta) == Scalar::Finite(FALLBACK_DELTA_RAW),
{
}

/// The factor that scales displacements to the newest time step is finite
/// for every record, and exactly one where the two recorded steps are
/// equal.
pub proof fn lemma_velocity_factor(newest: Scalar, previous: Scalar)
    requires
        VerletRes::usable(newest),
        VerletRes::usable(previous),
    ensures
        step_ratio(newest, previous).finite(),
        newest == previous ==> step_ratio(newest, previous) == Scalar::Finite(ONE_RAW),
{
    if newest == previous {
        crate::scalar::lemma_quotient_by_self(newest);
    }
}

/// After any update the factor is finite, and after the first update, or
/// an update with the step that was recorded last, it is exactly one.
/// This holds for an observed step of zero too, which the fallback step
/// replaces.
pub proof fn lemma_velocity_factor_after_update(deltas: Seq<Scalar>, delta: Scalar)
    requires
        deltas.len() == 0 || deltas.len() == 2,
        forall|i: int| 0 <= i < deltas.len() ==> VerletRes::usable(#[trigger] deltas[i]),
    ensures
        step_ratio(record_after(deltas, delta)[0], record_after(deltas, delta)[1]).finite(),
        deltas.len() == 0 || recorded_delta(delta) == deltas[0] ==> step_ratio(
            record_after(deltas, delta)[0],
            record_after(deltas, delta)[1],
        ) == Scalar::Finite(ONE_RAW),
{
    lemma_recorded_delta_is_usable(delta);
    lemma_velocity_factor(record_after(deltas, delta)[0], record_after(deltas, delta)[1]);
}

/// For two equal steps the effective square of the time step is the
/// square of the step, as long as twice the step is within the safe
/// operating range.
pub proof fn lemma_effective_square_of_equal_steps(step: Scalar)
    requires
        VerletRes::usable(step),
        2 * step.raw() <= crate::scalar::RANGE_MAX_RAW,
    ensures
        effective_square(step, step) == step.product(step).range_clamped(),
{
    let doubled = step.sum(step).range_clamped();
    assert(doubled.raw() == 2 * step.raw());
    assert(doubled.raw() * HALF_RAW == step.raw() * ONE_RAW) by (nonlinear_arith)
        requires
            doubled.raw() == 2 * step.raw(),
            HALF_RAW == 0x8000_0000,
            ONE_RAW == 0x1_0000_0000,
    ;
    crate::scalar::lemma_trunc_div_multiple(step.raw(), ONE_RAW as int);
}

/// The effective square of the time step is not negative.
pub proof fn lemma_effective_square_is_not_negative(newest: Scalar, previous: Scalar)
    requires
        VerletRes::usable(newest),
        VerletRes::usable(previous),
    ensures
        effective_square(newest, previous).in_range(),
        effective_square(newest, previous).raw() >= 0,
{
    let total = newest.sum(previous).range_clamped();
    assert(total.raw() * HALF_RAW >= 0) by (nonlinear_arith)
        requires
            total.raw() >= 0,
            HALF_RAW >= 0,
    ;
    crate::scalar::lemma_trunc_div_sign(total.raw() * HALF_RAW, ONE_RAW as int);
    let half = total.product(Scalar::Finite(HALF_RAW)).range_clamped();
    assert(half.raw() * newest.raw() >= 0) by (nonlinear_arith)
        requires
            half.raw() >= 0,
            newest.raw() >= 0,
    ;
    crate::scalar::lemma_trunc_div_sign(half.raw() * newest.raw(), ONE_RAW as int);
}

} // verus!
