//! The tick: one step of the whole simulation, in its fixed order.

use vstd::prelude::*;
use rand::rngs::SmallRng;
use crate::common::{all_valid, all_wf, LinkError, Node, NodeLink};
use crate::forces::{each_free_node, each_node};
use crate::forces::galaxy::{apply_galaxy_force, galaxy_displacement};
use crate::forces::gravity::{apply_gravity_force, gravity_displacement};
use crate::forces::initial_velocity::{apply_initial_velocity, nudged};
use crate::forces::link::{apply_link_force, link_pass, LinkConfig};
use crate::forces::mean_to_center::{apply_mean_to_center, recentered};
use crate::forces::repulsion::{
    apply_repulsion_force_with,
    draw_tape,
    repulsion_pass,
    RepulsionConfig,
};
use crate::forces::window_border::{
    apply_window_border,
    contained,
    Viewport,
    WindowBorderConfig,
};
use crate::mouse::{at_node, drag_end, drag_n_drop, drag_start};
use crate::random::seeded_generator;
use crate::scalar::Scalar;
use crate::utils::ClampRange;
use crate::vector::Vec2;
use crate::verlet::{
    apply_velocity,
    effective_square,
    integrated,
    record_after,
    step_ratio,
    VerletRes,
};

verus! {

/// The strengths of the forces, fixed when the simulation is set up.
#[derive(Clone, Copy, PartialEq, Eq, Structural, Debug)]
pub struct ForceConfig {
    pub link: LinkConfig,
    pub repulsion: RepulsionConfig,
    /// The strength of gravity.
    pub gravity: Scalar,
    /// The strength of the galaxy force.
    pub galaxy: Scalar,
    pub border: WindowBorderConfig,
    /// The velocity of the initial nudge.
    pub initial_velocity: Scalar,
    /// The share of its velocity that a node keeps from one tick to the
    /// next.
    pub velocity_decay: Scalar,
}

/// What the user does to a node. Events are collected between ticks and
/// take effect at the start of the next one.
#[derive(Clone, Copy, PartialEq, Eq, Structural, Debug)]
pub enum DragEvent {
    /// The user takes hold of a node.
    Start { node: usize },
    /// The user drags a node to a position in the plane of the layout.
    Move { node: usize, target: Vec2 },
    /// The user lets go of a node.
    End { node: usize },
}

/// What one tick takes in: the time since the tick before, the viewport
/// at that moment, and the events that were queued since.
pub struct Frame {
    pub delta: Scalar,
    pub viewport: Viewport,
    pub events: Vec<DragEvent>,
}

/// Why a simulation could not be set up: the link at `index` of the link
/// table was refused.
#[derive(Clone, Copy, PartialEq, Eq, Structural, Debug)]
pub struct TopologyError {
    pub index: usize,
    pub reason: LinkError,
}

/// The state of a simulation as contracts see it.
pub struct SimulationState {
    pub nodes: Seq<Node>,
    pub links: Seq<NodeLink>,
    /// The recorded time steps, the newest first.
    pub deltas: Seq<Scalar>,
    /// The time that the ticks so far have covered.
    pub elapsed: Scalar,
    pub config: ForceConfig,
}

impl SimulationState {
    /// Every node is well formed, every link joins two different nodes of
    /// the table, no time step or two are recorded, each of them positive,
    /// and the elapsed time is zero before the first tick and positive
    /// after it.
    pub open spec fn wf(self) -> bool {
        &&& all_wf(self.nodes)
        &&& all_valid(self.links, self.nodes.len())
        &&& (self.deltas.len() == 0 || self.deltas.len() == 2)
        &&& forall|i: int|
            0 <= i < self.deltas.len() ==> VerletRes::usable(#[trigger] self.deltas[i])
        &&& self.elapsed.in_range()
        &&& self.elapsed.raw() >= 0
        &&& (self.elapsed.raw() == 0 <==> self.deltas.len() == 0)
    }
}

/// A simulation: the node table, the link table, the record of time steps,
/// and the generator that fallback directions are drawn from.
pub struct Simulation {
    nodes: Vec<Node>,
    links: Vec<NodeLink>,
    verlet: VerletRes,
    elapsed: Scalar,
    config: ForceConfig,
    generator: SmallRng,
}

/// The table after one event has taken effect.
pub open spec fn event_applied(nodes: Seq<Node>, event: DragEvent) -> Seq<Node> {
    match event {
        DragEvent::Start { node } => at_node(nodes, node as int, |n: Node| n.grabbed()),
        DragEvent::Move { node, target } => at_node(
            nodes,
            node as int,
            |n: Node| n.dragged_to(target),
        ),
        DragEvent::End { node } => at_node(nodes, node as int, |n: Node| n.released()),
    }
}

/// The table after the first `count` events have taken effect, in order.
pub open spec fn events_applied_upto(nodes: Seq<Node>, events: Seq<DragEvent>, count: nat) -> Seq<
    Node,
>
    decreases count,
{
    if count == 0 {
        nodes
    } else {
        event_applied(events_applied_upto(nodes, events, (count - 1) as nat), events[count - 1])
    }
}

/// The table after all the events have taken effect, in order.
pub open spec fn events_applied(nodes: Seq<Node>, events: Seq<DragEvent>) -> Seq<Node> {
    events_applied_upto(nodes, events, events.len())
}

/// The table after the forces of one tick have acted, in their fixed
/// order: recentering, links, repulsion, gravity, the galaxy force,
/// containment, and the initial nudge. Each force sees the positions that
/// the forces before it left.
pub open spec fn forces_applied(
    nodes: Seq<Node>,
    links: Seq<NodeLink>,
    config: ForceConfig,
    newest: Scalar,
    previous: Scalar,
    viewport: Viewport,
    elapsed: Scalar,
    draws: Seq<u32>,
) -> Seq<Node> {
    let step_square = effective_square(newest, previous);
    let centered = recentered(nodes);
    let linked = link_pass(centered, links, config.link, step_square);
    let repelled = repulsion_pass(linked, config.repulsion, step_square, draws);
    let fallen = each_free_node(
        repelled,
        |node: Node| node.moved(gravity_displacement(config.gravity, step_square)),
    );
    let turned = each_free_node(
        fallen,
        |node: Node| node.moved(galaxy_displacement(node.position, config.galaxy, step_square)),
    );
    let kept = each_free_node(
        turned,
        |node: Node| contained(node, viewport.region(config.border.margin), config.border.bounce),
    );
    nudged(kept, config.initial_velocity, newest, elapsed)
}

/// The state after one tick: the queued events take effect, the time step
/// is recorded, the forces act in their fixed order, the integration
/// advances every node, and the elapsed time grows by the recorded step.
pub open spec fn ticked(
    state: SimulationState,
    delta: Scalar,
    viewport: Viewport,
    events: Seq<DragEvent>,
    draws: Seq<u32>,
) -> SimulationState {
    let deltas = record_after(state.deltas, delta);
    let forced = forces_applied(
        events_applied(state.nodes, events),
        state.links,
        state.config,
        deltas[0],
        deltas[1],
        viewport,
        state.elapsed,
        draws,
    );
    SimulationState {
        nodes: each_node(
            forced,
            |node: Node|
                integrated(node, step_ratio(deltas[0], deltas[1]), state.config.velocity_decay),
        ),
        links: state.links,
        deltas,
        elapsed: state.elapsed.sum(deltas[0]).range_clamped(),
        config: state.config,
    }
}

/// The tape of draws for the tick at `index`: the entry of the list of
/// tapes, and the empty tape beyond its end.
pub open spec fn tape_at(tapes: Seq<Seq<u32>>, index: int) -> Seq<u32> {
    if 0 <= index < tapes.len() {
        tapes[index]
    } else {
        Seq::empty()
    }
}

/// The state after the first `count` frames, one tick for each, the tick
/// at `k` with the tape of draws at `k`.
pub open spec fn ran_upto(
    state: SimulationState,
    frames: Seq<Frame>,
    tapes: Seq<Seq<u32>>,
    count: nat,
) -> SimulationState
    decreases count,
{
    if count == 0 {
        state
    } else {
        ticked(
            ran_upto(state, frames, tapes, (count - 1) as nat),
            frames[count - 1].delta,
            frames[count - 1].viewport,
            frames[count - 1].events@,
            tape_at(tapes, count - 1),
        )
    }
}

/// The state after all the frames, one tick for each.
pub open spec fn ran(state: SimulationState, frames: Seq<Frame>, tapes: Seq<Seq<u32>>)
    -> SimulationState {
    ran_upto(state, frames, tapes, frames.len())
}

/// The tapes that a list of vectors holds.
pub open spec fn tapes_of(tapes: Seq<Vec<u32>>) -> Seq<Seq<u32>> {
    Seq::new(tapes.len(), |k: int| tapes[k]@)
}

/// A run is determined by what goes into it: two runs that start from the
/// same nodes, links, recorded time steps, elapsed time and strengths,
/// and are given the same time steps, viewports, events and draws tick
/// by tick, end in the same state, with every node at the same position.
pub proof fn lemma_runs_agree(
    first: SimulationState,
    second: SimulationState,
    first_frames: Seq<Frame>,
    second_frames: Seq<Frame>,
    first_tapes: Seq<Seq<u32>>,
    second_tapes: Seq<Seq<u32>>,
    count: nat,
)
    requires
        first.nodes =~= second.nodes,
        first.links =~= second.links,
        first.deltas =~= second.deltas,
        first.elapsed == second.elapsed,
        first.config == second.config,
        count <= first_frames.len(),
        count <= second_frames.len(),
        forall|k: int|
            0 <= k < count ==> {
                &&& (#[trigger] first_frames[k]).delta == second_frames[k].delta
                &&& first_frames[k].viewport == second_frames[k].viewport
                &&& first_frames[k].events@ =~= second_frames[k].events@
                &&& tape_at(first_tapes, k) =~= tape_at(second_tapes, k)
            },
    ensures
        ran_upto(first, first_frames, first_tapes, count) == ran_upto(
            second,
            second_frames,
            second_tapes,
            count,
        ),
        ran_upto(first, first_frames, first_tapes, count).nodes == ran_upto(
            second,
            second_frames,
            second_tapes,
            count,
        ).nodes,
    decreases count,
{
    if count > 0 {
        lemma_runs_agree(
            first,
            second,
            first_frames,
            second_frames,
            first_tapes,
            second_tapes,
            (count - 1) as nat,
        );
        assert(first_frames[count - 1].delta == second_frames[count - 1].delta);
    }
}

/// The forces leave every locked node as it is: where it is, with its
/// previous position and the estimate of its velocity. They leave every
/// node its lock state.
pub proof fn lemma_forces_leave_locked_nodes(
    nodes: Seq<Node>,
    links: Seq<NodeLink>,
    config: ForceConfig,
    newest: Scalar,
    previous: Scalar,
    viewport: Viewport,
    elapsed: Scalar,
    draws: Seq<u32>,
)
    requires
        all_valid(links, nodes.len()),
    ensures
        ({
            let after = forces_applied(
                nodes,
                links,
                config,
                newest,
                previous,
                viewport,
                elapsed,
                draws,
            );
            &&& after.len() == nodes.len()
            &&& forall|i: int|
                0 <= i < nodes.len() ==> (#[trigger] after[i]).lock == nodes[i].lock
            &&& forall|i: int|
                0 <= i < nodes.len() && nodes[i].locked() ==> #[trigger] after[i] == nodes[i]
        }),
{
    let step_square = effective_square(newest, previous);
    let centered = recentered(nodes);
    crate::forces::link::lemma_links_leave_locked_nodes(
        centered,
        links,
        config.link,
        step_square,
        links.len(),
    );
    let linked = link_pass(centered, links, config.link, step_square);
    crate::forces::repulsion::lemma_repulsion_leaves_locked_nodes(
        linked,
        linked.len() as int,
        config.repulsion,
        step_square,
        draws,
    );
}

/// A tick without events leaves every locked node where it is, and
/// locked: neither the forces nor the integration move it.
pub proof fn lemma_tick_leaves_locked_nodes(
    state: SimulationState,
    delta: Scalar,
    viewport: Viewport,
    draws: Seq<u32>,
)
    requires
        all_valid(state.links, state.nodes.len()),
    ensures
        ({
            let after = ticked(state, delta, viewport, Seq::empty(), draws);
            &&& after.nodes.len() == state.nodes.len()
            &&& forall|i: int|
                0 <= i < state.nodes.len() && state.nodes[i].locked() ==> (
                #[trigger] after.nodes[i]).locked() && after.nodes[i].position
                    == state.nodes[i].position
        }),
{
    let deltas = record_after(state.deltas, delta);
    assert(events_applied(state.nodes, Seq::empty()) == state.nodes);
    lemma_forces_leave_locked_nodes(
        state.nodes,
        state.links,
        state.config,
        deltas[0],
        deltas[1],
        viewport,
        state.elapsed,
        draws,
    );
}

/// The index of the first link of the table that is not valid for
/// `node_count` nodes, or the length of the table if there is none, looking
/// at the first `count` links only.
pub open spec fn first_invalid(links: Seq<NodeLink>, node_count: nat, count: nat) -> nat
    decreases count,
{
    if count == 0 {
        0
    } else {
        let before = first_invalid(links, node_count, (count - 1) as nat);
        if before < count - 1 || !links[count - 1].valid_for(node_count) {
            before
        } else {
            count
        }
    }
}

/// Up to the first invalid link every link is valid, and the link there is
/// not.
pub proof fn lemma_first_invalid(links: Seq<NodeLink>, node_count: nat, count: nat)
    requires
        count <= links.len(),
    ensures
        first_invalid(links, node_count, count) <= count,
        forall|k: int|
            0 <= k < first_invalid(links, node_count, count) ==> (#[trigger] links[k]).valid_for(
                node_count,
            ),
        first_invalid(links, node_count, count) < count ==> !links[first_invalid(
            links,
            node_count,
            count,
        ) as int].valid_for(node_count),
    decreases count,
{
    if count > 0 {
        lemma_first_invalid(links, node_count, (count - 1) as nat);
    }
}

impl Simulation {
    /// The state of the simulation.
    pub closed spec fn view(&self) -> SimulationState {
        SimulationState {
            nodes: self.nodes@,
            links: self.links@,
            deltas: self.verlet.deltas(),
            elapsed: self.elapsed,
            config: self.config,
        }
    }

    /// Whether the state of the simulation is well formed.
    pub open spec fn wf(&self) -> bool {
        self@.wf()
    }

    /// The outcome of setting up a simulation: the state before the first
    /// tick, with a free node at rest at each position, or the first link
    /// of the table that is refused, with the reason.
    pub open spec fn set_up(positions: Seq<Vec2>, links: Seq<NodeLink>, config: ForceConfig)
        -> Result<SimulationState, TopologyError> {
        let index = first_invalid(links, positions.len(), links.len());
        if index < links.len() {
            Err(
                TopologyError {
                    index: index as usize,
                    reason: NodeLink::checked(
                        links[index as int].source,
                        links[index as int].target,
                        links[index as int].target_distance,
                        positions.len(),
                    )->Err_0,
                },
            )
        } else {
            Ok(
                SimulationState {
                    nodes: Seq::new(
                        positions.len(),
                        |i: int|
                            Node {
                                position: Node::admitted(positions[i]),
                                physics: crate::common::NodePhysics {
                                    previous_position: Node::admitted(positions[i]),
                                },
                                lock: crate::common::LockState::Free,
                            },
                    ),
                    links,
                    deltas: Seq::empty(),
                    elapsed: Scalar::Finite(0),
                    config,
                },
            )
        }
    }

    /// Sets up a simulation with a free node at rest at each of the
    /// positions. A link that joins a node to itself, names a node that is
    /// not there, or has no positive rest length is refused, and with it
    /// the whole set-up. The generator of fallback directions is seeded
    /// with `seed`.
    pub fn new(positions: &Vec<Vec2>, links: Vec<NodeLink>, config: ForceConfig, seed: u64) -> (r:
        Result<Simulation, TopologyError>)
        ensures
            r is Ok == (Simulation::set_up(positions@, links@, config) is Ok),
            r is Ok ==> r->Ok_0@ == Simulation::set_up(positions@, links@, config)->Ok_0
                && r->Ok_0.wf(),
            r is Err ==> r->Err_0 == Simulation::set_up(positions@, links@, config)->Err_0,
    {
        let node_count: usize = positions.len();
        let link_count: usize = links.len();
        let mut k: usize = 0;
        while k < link_count
            invariant
                k <= link_count,
                link_count == links@.len(),
                node_count == positions@.len(),
                first_invalid(links@, node_count as nat, k as nat) == k,
            decreases link_count - k,
        {
            let link = links[k];
            match NodeLink::new(link.source, link.target, link.target_distance, node_count) {
                Ok(_) => {},
                Err(reason) => {
                    proof {
                        lemma_first_invalid_stays(links@, node_count as nat, k as nat, link_count as nat);
                    }
                    return Err(TopologyError { index: k, reason });
                },
            }
            k += 1;
        }
        proof {
            lemma_first_invalid(links@, node_count as nat, link_count as nat);
        }
        let mut nodes: Vec<Node> = Vec::new();
        let mut i: usize = 0;
        while i < node_count
            invariant
                i <= node_count,
                node_count == positions@.len(),
                nodes@.len() == i,
                forall|j: int|
                    0 <= j < i ==> (#[trigger] nodes@[j]) == (Node {
                        position: Node::admitted(positions@[j]),
                        physics: crate::common::NodePhysics {
                            previous_position: Node::admitted(positions@[j]),
                        },
                        lock: crate::common::LockState::Free,
                    }) && nodes@[j].wf(),
            decreases node_count - i,
        {
            nodes.push(Node::new(positions[i]));
            i += 1;
        }
        let simulation = Simulation {
            nodes,
            links,
            verlet: VerletRes::new(),
            elapsed: Scalar::zero(),
            config,
            generator: seeded_generator(seed),
        };
        assert(simulation@.nodes =~= Simulation::set_up(positions@, links@, config)->Ok_0.nodes);
        assert(simulation@.deltas =~= Seq::<Scalar>::empty());
        Ok(simulation)
    }

    pub fn nodes(&self) -> (r: &Vec<Node>)
        ensures
            r@ == self@.nodes,
    {
        &self.nodes
    }

    pub fn links(&self) -> (r: &Vec<NodeLink>)
        ensures
            r@ == self@.links,
    {
        &self.links
    }

    pub fn verlet(&self) -> (r: &VerletRes)
        ensures
            r.deltas() == self@.deltas,
            self.wf() ==> r.wf(),
    {
        &self.verlet
    }

    /// The time that the ticks so far have covered.
    pub fn elapsed(&self) -> (r: Scalar)
        ensures
            r == self@.elapsed,
    {
        self.elapsed
    }

    pub fn config(&self) -> (r: ForceConfig)
        ensures
            r == self@.config,
    {
        self.config
    }

    /// Advances the simulation by one tick for the time step `delta`. Where
    /// two nodes coincide, repulsion pushes them apart along the fallback
    /// direction that the tape of draws holds for the second of the two.
    pub fn tick_with(
        &mut self,
        delta: Scalar,
        viewport: &Viewport,
        events: &Vec<DragEvent>,
        draws: &Vec<u32>,
    )
        requires
            old(self).wf(),
        ensures
            final(self)@ == ticked(old(self)@, delta, *viewport, events@, draws@),
            final(self).wf(),
    {
        let event_count: usize = events.len();
        let mut k: usize = 0;
        while k < event_count
            invariant
                k <= event_count,
                event_count == events@.len(),
                self.nodes@.len() == old(self).nodes@.len(),
                self.nodes@ == events_applied_upto(old(self).nodes@, events@, k as nat),
                all_wf(self.nodes@),
                self.links == old(self).links,
                self.verlet == old(self).verlet,
                self.elapsed == old(self).elapsed,
                self.config == old(self).config,
            decreases event_count - k,
        {
            match events[k] {
                DragEvent::Start { node } => drag_start(&mut self.nodes, node),
                DragEvent::Move { node, target } => drag_n_drop(&mut self.nodes, node, target),
                DragEvent::End { node } => drag_end(&mut self.nodes, node),
            }
            k += 1;
        }
        self.verlet.update(delta);
        let region = viewport.visible_region(self.config.border.margin);
        apply_mean_to_center(&mut self.nodes);
        apply_link_force(&self.config.link, &self.links, &mut self.nodes, &self.verlet);
        apply_repulsion_force_with(&self.config.repulsion, &mut self.nodes, &self.verlet, draws);
        apply_gravity_force(self.config.gravity, &mut self.nodes, &self.verlet);
        apply_galaxy_force(self.config.galaxy, &mut self.nodes, &self.verlet);
        apply_window_border(self.config.border.bounce, &mut self.nodes, &region);
        apply_initial_velocity(
            self.config.initial_velocity,
            &mut self.nodes,
            &self.verlet,
            self.elapsed,
        );
        apply_velocity(self.config.velocity_decay, &mut self.nodes, &self.verlet);
        self.elapsed = self.elapsed.add(self.verlet.delta_secs()).clamp_range();
    }

    /// Advances the simulation by one tick for the time step `delta`. Where
    /// two nodes coincide, repulsion pushes them apart along a random
    /// direction, drawn from the generator of the simulation.
    pub fn tick(&mut self, delta: Scalar, viewport: &Viewport, events: &Vec<DragEvent>)
        requires
            old(self).wf(),
        ensures
            exists|draws: Seq<u32>| final(self)@ == #[trigger] ticked(
                old(self)@,
                delta,
                *viewport,
                events@,
                draws,
            ),
            final(self).wf(),
    {
        let draws = draw_tape(&mut self.generator, self.nodes.len());
        self.tick_with(delta, viewport, events, &draws);
    }
}

/// Runs one tick for each frame, in order. The tick for the frame at `k`
/// takes its fallback directions from the tape at `k`.
pub fn run_with(simulation: &mut Simulation, frames: &Vec<Frame>, tapes: &Vec<Vec<u32>>)
    requires
        old(simulation).wf(),
    ensures
        final(simulation)@ == ran(old(simulation)@, frames@, tapes_of(tapes@)),
        final(simulation).wf(),
{
    let count: usize = frames.len();
    let empty: Vec<u32> = Vec::new();
    let mut k: usize = 0;
    while k < count
        invariant
            k <= count,
            count == frames@.len(),
            empty@.len() == 0,
            simulation.wf(),
            simulation@ == ran_upto(old(simulation)@, frames@, tapes_of(tapes@), k as nat),
        decreases count - k,
    {
        let frame = &frames[k];
        let tape = if k < tapes.len() {
            &tapes[k]
        } else {
            &empty
        };
        assert(tape@ =~= tape_at(tapes_of(tapes@), k as int));
        simulation.tick_with(frame.delta, &frame.viewport, &frame.events, tape);
        k += 1;
    }
}

/// Runs one tick for each frame, in order, with fallback directions drawn
/// from the generator of the simulation.
pub fn run(simulation: &mut Simulation, frames: &Vec<Frame>)
    requires
        old(simulation).wf(),
    ensures
        exists|tapes: Seq<Seq<u32>>|
            final(simulation)@ == #[trigger] ran(old(simulation)@, frames@, tapes),
        final(simulation).wf(),
{
    let count: usize = frames.len();
    let ghost mut tapes: Seq<Seq<u32>> = Seq::empty();
    let mut k: usize = 0;
    while k < count
        invariant
            k <= count,
            count == frames@.len(),
            tapes.len() == k,
            simulation.wf(),
            simulation@ == ran_upto(old(simulation)@, frames@, tapes, k as nat),
        decreases count - k,
    {
        let frame = &frames[k];
        let ghost before = simulation@;
        simulation.tick(frame.delta, &frame.viewport, &frame.events);
        proof {
            let tape = choose|draws: Seq<u32>|
                simulation@ == #[trigger] ticked(
                    before,
                    frame.delta,
                    frame.viewport,
                    frame.events@,
                    draws,
                );
            let ghost earlier = tapes;
            tapes = tapes.push(tape);
            lemma_ran_upto_ignores_later_tapes(
                old(simulation)@,
                frames@,
                earlier,
                tapes,
                k as nat,
            );
            assert(tape_at(tapes, k as int) == tape);
        }
        k += 1;
    }
    assert(simulation@ == ran(old(simulation)@, frames@, tapes));
}

/// The state after the first `count` frames depends on the first `count`
/// tapes only.
pub proof fn lemma_ran_upto_ignores_later_tapes(
    state: SimulationState,
    frames: Seq<Frame>,
    first: Seq<Seq<u32>>,
    second: Seq<Seq<u32>>,
    count: nat,
)
    requires
        forall|k: int| 0 <= k < count ==> tape_at(first, k) == tape_at(second, k),
    ensures
        ran_upto(state, frames, first, count) == ran_upto(state, frames, second, count),
    decreases count,
{
    if count > 0 {
        lemma_ran_upto_ignores_later_tapes(state, frames, first, second, (count - 1) as nat);
        assert(tape_at(first, count - 1) == tape_at(second, count - 1));
    }
}

/// The first invalid link among the first `count` links stays the first
/// when more links are looked at.
pub proof fn lemma_first_invalid_stays(links: Seq<NodeLink>, node_count: nat, k: nat, count: nat)
    requires
        k < count <= links.len(),
        first_invalid(links, node_count, k) == k,
        !links[k as int].valid_for(node_count),
    ensures
        first_invalid(links, node_count, count) == k,
    decreases count,
{
    if count > k + 1 {
        lemma_first_invalid_stays(links, node_count, k, (count - 1) as nat);
    }
}

} // verus!
