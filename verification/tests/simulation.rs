use force_directed_graph::common::{LinkError, LockState, MouseLocked, Node, NodeLink};
use force_directed_graph::forces::galaxy::apply_galaxy_force;
use force_directed_graph::forces::gravity::apply_gravity_force;
use force_directed_graph::forces::initial_velocity::apply_initial_velocity;
use force_directed_graph::forces::link::{apply_link_force, LinkConfig};
use force_directed_graph::forces::mean_to_center::apply_mean_to_center;
use force_directed_graph::forces::repulsion::{apply_repulsion_force_with, RepulsionConfig};
use force_directed_graph::forces::window_border::{
    apply_window_border, Viewport, WindowBorderConfig,
};
use force_directed_graph::scalar::Scalar;
use force_directed_graph::simulation::{
    run, run_with, DragEvent, ForceConfig, Frame, Simulation, TopologyError,
};
use force_directed_graph::vector::Vec2;
use force_directed_graph::verlet::{apply_velocity, VerletRes};

fn scalar(value: f32) -> Scalar {
    if value.is_finite() {
        Scalar::from_raw((value as f64 * 4294967296.0) as i64)
    } else {
        Scalar::NonFinite
    }
}

fn vec2(x: f32, y: f32) -> Vec2 {
    Vec2::new(scalar(x), scalar(y))
}

fn config() -> ForceConfig {
    ForceConfig {
        link: LinkConfig { strength: scalar(50.0), strength_max: scalar(4.0) },
        repulsion: RepulsionConfig { strength: scalar(100000.0) },
        gravity: scalar(3.0),
        galaxy: scalar(0.5),
        border: WindowBorderConfig { bounce: scalar(0.5), margin: scalar(30.0) },
        initial_velocity: scalar(20.0),
        velocity_decay: scalar(0.95),
    }
}

/// A configuration in which no force acts and nodes keep all their velocity.
fn still() -> ForceConfig {
    ForceConfig {
        link: LinkConfig { strength: scalar(0.0), strength_max: scalar(0.0) },
        repulsion: RepulsionConfig { strength: scalar(0.0) },
        gravity: scalar(0.0),
        galaxy: scalar(0.0),
        border: WindowBorderConfig { bounce: scalar(0.0), margin: scalar(0.0) },
        initial_velocity: scalar(0.0),
        velocity_decay: scalar(1.0),
    }
}

fn viewport() -> Viewport {
    Viewport { center: vec2(0.0, 0.0), width: scalar(1280.0), height: scalar(720.0) }
}

fn wide() -> Viewport {
    Viewport { center: vec2(0.0, 0.0), width: scalar(1000000.0), height: scalar(1000000.0) }
}

fn layout() -> (Vec<Vec2>, Vec<NodeLink>) {
    let positions = vec![
        vec2(0.5, -0.25),
        vec2(0.5, -0.25),
        vec2(-0.75, 0.125),
        vec2(0.0, 0.0),
        vec2(0.0, 0.0),
        vec2(0.0, 0.0),
        vec2(300.0, -200.0),
    ];
    let links = vec![
        NodeLink { source: 0, target: 1, target_distance: scalar(50.0) },
        NodeLink { source: 1, target: 2, target_distance: scalar(120.0) },
        NodeLink { source: 6, target: 3, target_distance: scalar(75.5) },
        NodeLink { source: 4, target: 0, target_distance: scalar(149.0) },
    ];
    (positions, links)
}

fn positions_of(simulation: &Simulation) -> Vec<Vec2> {
    simulation.nodes().iter().map(|node| node.position).collect()
}

#[test]
fn test_set_up() {
    let (positions, links) = layout();
    let simulation = Simulation::new(&positions, links.clone(), config(), 0).ok().unwrap();
    assert_eq!(positions_of(&simulation), positions);
    assert!(simulation.nodes().iter().all(|node| node.lock == LockState::Free));
    assert!(simulation
        .nodes()
        .iter()
        .all(|node| node.physics.previous_position == node.position));
    assert_eq!(simulation.links(), &links);
    assert_eq!(simulation.elapsed(), scalar(0.0));
    assert_eq!(simulation.config(), config());
    assert!(!simulation.verlet().is_ready());
}

#[test]
fn test_set_up_admits_positions() {
    let positions = vec![vec2(f32::NAN, 1.0), Vec2::new(scalar(1.0), Scalar::from_raw(i64::MIN))];
    let simulation = Simulation::new(&positions, vec![], config(), 0).ok().unwrap();
    assert_eq!(
        positions_of(&simulation),
        vec![vec2(0.0, 0.0), Vec2::new(scalar(1.0), Scalar::from_raw(-(1 << 61)))]
    );
}

#[test]
fn test_set_up_refuses_a_link_of_a_node_to_itself() {
    let (positions, mut links) = layout();
    links[2] = NodeLink { source: 3, target: 3, target_distance: scalar(1.0) };
    assert_eq!(
        Simulation::new(&positions, links, config(), 0).err(),
        Some(TopologyError { index: 2, reason: LinkError::SelfLoop })
    );
}

#[test]
fn test_set_up_refuses_a_link_to_a_missing_node() {
    let (positions, mut links) = layout();
    links[3] = NodeLink { source: 3, target: 7, target_distance: scalar(1.0) };
    assert_eq!(
        Simulation::new(&positions, links, config(), 0).err(),
        Some(TopologyError { index: 3, reason: LinkError::MissingNode })
    );
    let lone = vec![NodeLink { source: 0, target: 1, target_distance: scalar(1.0) }];
    assert_eq!(
        Simulation::new(&vec![], lone, config(), 0).err(),
        Some(TopologyError { index: 0, reason: LinkError::MissingNode })
    );
}

#[test]
fn test_set_up_refuses_a_link_without_a_rest_length() {
    let (positions, mut links) = layout();
    links[0] = NodeLink { source: 0, target: 1, target_distance: scalar(0.0) };
    links[1] = NodeLink { source: 1, target: 1, target_distance: scalar(1.0) };
    assert_eq!(
        Simulation::new(&positions, links, config(), 0).err(),
        Some(TopologyError { index: 0, reason: LinkError::InvalidDistance })
    );
}

#[test]
fn test_tick_of_an_empty_simulation() {
    let mut simulation = Simulation::new(&vec![], vec![], config(), 0).ok().unwrap();
    simulation.tick(scalar(0.0), &viewport(), &vec![]);
    simulation.tick(scalar(0.016), &viewport(), &vec![DragEvent::Start { node: 0 }]);
    assert!(simulation.nodes().is_empty());
    assert!(simulation.verlet().is_ready());
}

#[test]
fn test_tick_runs_the_forces_in_their_order() {
    let (positions, links) = layout();
    let cfg = config();
    let draws = vec![3, 14, 15, 9, 26, 53, 58];
    let mut simulation = Simulation::new(&positions, links.clone(), cfg, 0).ok().unwrap();

    let mut nodes: Vec<Node> = positions.iter().map(|position| Node::new(*position)).collect();
    let mut verlet = VerletRes::new();
    let mut elapsed = scalar(0.0);
    for delta in [0.016, 0.02, 0.0, 0.011] {
        simulation.tick_with(scalar(delta), &viewport(), &vec![], &draws);

        verlet.update(scalar(delta));
        apply_mean_to_center(&mut nodes);
        apply_link_force(&cfg.link, &links, &mut nodes, &verlet);
        apply_repulsion_force_with(&cfg.repulsion, &mut nodes, &verlet, &draws);
        apply_gravity_force(cfg.gravity, &mut nodes, &verlet);
        apply_galaxy_force(cfg.galaxy, &mut nodes, &verlet);
        apply_window_border(
            cfg.border.bounce,
            &mut nodes,
            &viewport().visible_region(cfg.border.margin),
        );
        apply_initial_velocity(cfg.initial_velocity, &mut nodes, &verlet, elapsed);
        apply_velocity(cfg.velocity_decay, &mut nodes, &verlet);
        elapsed = elapsed.add(verlet.delta_secs());

        assert_eq!(simulation.nodes(), &nodes);
        assert_eq!(simulation.elapsed(), elapsed);
    }
    assert!(positions_of(&simulation) != positions);
}

#[test]
fn test_elapsed_time_grows_by_the_recorded_step() {
    let mut simulation = Simulation::new(&vec![], vec![], config(), 0).ok().unwrap();
    simulation.tick(scalar(0.5), &viewport(), &vec![]);
    assert_eq!(simulation.elapsed(), scalar(0.5));
    simulation.tick(scalar(0.25), &viewport(), &vec![]);
    assert_eq!(simulation.elapsed(), scalar(0.75));
    simulation.tick(scalar(0.0), &viewport(), &vec![]);
    assert_eq!(simulation.elapsed(), scalar(0.75).add(Scalar::from_raw(42949673)));
}

#[test]
fn test_initial_nudge_comes_once() {
    let mut cfg = still();
    cfg.initial_velocity = scalar(2.0);
    let mut simulation = Simulation::new(&vec![vec2(0.0, 0.0)], vec![], cfg, 0).ok().unwrap();
    // first tick: nudged by 2 * 0.5 downwards, then coasting by as much
    simulation.tick(scalar(0.5), &wide(), &vec![]);
    assert_eq!(positions_of(&simulation), vec![vec2(0.0, -2.0)]);
    // later ticks: the node is put back at the origin, which leaves it the
    // velocity 1 upwards, and is not nudged again
    simulation.tick(scalar(0.5), &wide(), &vec![]);
    assert_eq!(positions_of(&simulation), vec![vec2(0.0, 1.0)]);
    assert_eq!(simulation.nodes()[0].physics.previous_position, vec2(0.0, 0.0));
}

#[test]
fn test_events_take_effect_before_the_forces() {
    let mut cfg = still();
    cfg.gravity = scalar(4.0);
    let start = vec![vec2(-5.0, 0.0), vec2(5.0, 0.0)];
    let mut simulation = Simulation::new(&start, vec![], cfg, 0).ok().unwrap();
    let events = vec![
        DragEvent::Start { node: 1 },
        DragEvent::Move { node: 1, target: vec2(7.0, 2.0) },
    ];
    simulation.tick(scalar(0.5), &wide(), &events);
    // the held node is where the user put it; the other one is recentered
    // (the mean is (1, 1)), falls by 4 * 0.25, and coasts on by what it has
    // moved in this tick
    assert_eq!(positions_of(&simulation), vec![vec2(-7.0, -4.0), vec2(7.0, 2.0)]);
    assert_eq!(simulation.nodes()[0].physics.previous_position, vec2(-6.0, -2.0));
    // the estimate takes in a tenth of the displacement by (2, 2)
    let tenth = scalar(2.0).mul(Scalar::from_raw(429496730));
    assert_eq!(
        simulation.nodes()[1].lock,
        LockState::Locked(MouseLocked { velocity: Vec2::new(tenth, tenth) })
    );
    assert_eq!(simulation.nodes()[1].physics.previous_position, vec2(7.0, 2.0));
}

#[test]
fn test_release_hands_the_estimated_velocity_over() {
    let start = vec![vec2(0.0, 0.0)];
    let mut simulation = Simulation::new(&start, vec![], still(), 0).ok().unwrap();
    simulation.tick(
        scalar(0.5),
        &wide(),
        &vec![DragEvent::Start { node: 0 }, DragEvent::Move { node: 0, target: vec2(10.0, 0.0) }],
    );
    // the node would have coasted by 10: the estimate is a tenth of that
    let estimate = scalar(10.0).mul(Scalar::from_raw(429496730));
    assert_eq!(
        simulation.nodes()[0].lock,
        LockState::Locked(MouseLocked { velocity: Vec2::new(estimate, scalar(0.0)) })
    );
    assert_eq!(positions_of(&simulation), vec![vec2(10.0, 0.0)]);
    simulation.tick(scalar(0.5), &wide(), &vec![DragEvent::End { node: 0 }]);
    assert_eq!(simulation.nodes()[0].lock, LockState::Free);
    assert_eq!(
        simulation.nodes()[0].physics.previous_position,
        vec2(0.0, 0.0)
    );
    // the release put the previous position at 10 less the estimate; then
    // the node was put back at the origin and coasted on from there
    assert_eq!(
        positions_of(&simulation),
        vec![Vec2::new(estimate.sub(scalar(10.0)), scalar(0.0))]
    );
}

#[test]
fn test_locked_node_never_moves() {
    let (positions, links) = layout();
    let mut simulation = Simulation::new(&positions, links, config(), 0).ok().unwrap();
    simulation.tick(scalar(0.016), &viewport(), &vec![DragEvent::Start { node: 6 }]);
    let held = simulation.nodes()[6].position;
    for _ in 0..50 {
        simulation.tick(scalar(0.016), &viewport(), &vec![]);
        assert_eq!(simulation.nodes()[6].position, held);
        assert!(simulation.nodes()[6].is_locked());
    }
}

#[test]
fn test_coincident_nodes_part_in_one_tick() {
    for seed in 0..20 {
        let start = vec![vec2(1.0, 1.0), vec2(1.0, 1.0)];
        let mut simulation = Simulation::new(&start, vec![], config(), seed).ok().unwrap();
        simulation.tick(scalar(0.016), &viewport(), &vec![]);
        let nodes = simulation.nodes();
        assert_ne!(nodes[0].position, nodes[1].position);
        assert!(nodes[0].position.is_finite() && nodes[1].position.is_finite());
    }
}

#[test]
fn test_positions_stay_finite_and_in_view() {
    let (positions, links) = layout();
    let mut simulation = Simulation::new(&positions, links, config(), 3).ok().unwrap();
    let region = viewport().visible_region(scalar(30.0));
    for tick in 0..300 {
        let delta = [0.016, 0.0, 0.033, 0.001, 1.5, f32::NAN, -1.0, 0.008][tick % 8];
        simulation.tick(scalar(delta), &viewport(), &vec![]);
        for node in simulation.nodes() {
            assert!(node.position.is_finite());
            assert!(node.physics.previous_position.is_finite());
        }
    }
    // the last force before the integration keeps the nodes in the region:
    // after it a node is at most its own displacement beyond the border
    for node in simulation.nodes() {
        let step = node.position.sub(node.physics.previous_position);
        let before = node.physics.previous_position;
        assert!(region.x_min.le(before.x) && before.x.le(region.x_max));
        assert!(region.y_min.le(before.y) && before.y.le(region.y_max));
        assert!(step.is_finite());
    }
}

#[test]
fn test_runs_with_one_seed_agree() {
    let (positions, links) = layout();
    let frames: Vec<Frame> = (0..40)
        .map(|tick| Frame {
            delta: scalar([0.016, 0.017, 0.0, 0.03][tick % 4]),
            viewport: viewport(),
            events: if tick == 5 {
                vec![DragEvent::Start { node: 2 }, DragEvent::Move { node: 2, target: vec2(9.0, 9.0) }]
            } else if tick == 20 {
                vec![DragEvent::End { node: 2 }]
            } else {
                vec![]
            },
        })
        .collect();
    let mut first = Simulation::new(&positions, links.clone(), config(), 42).ok().unwrap();
    let mut second = Simulation::new(&positions, links.clone(), config(), 42).ok().unwrap();
    run(&mut first, &frames);
    run(&mut second, &frames);
    assert_eq!(first.nodes(), second.nodes());
    assert_eq!(first.elapsed(), second.elapsed());
    // tick by tick gives what the run gives
    let mut third = Simulation::new(&positions, links, config(), 42).ok().unwrap();
    for frame in &frames {
        third.tick(frame.delta, &frame.viewport, &frame.events);
    }
    assert_eq!(first.nodes(), third.nodes());
}

#[test]
fn test_runs_with_one_tape_agree() {
    let (positions, links) = layout();
    let frames: Vec<Frame> = (0..25)
        .map(|tick| Frame {
            delta: scalar([0.016, 0.02, 0.0][tick % 3]),
            viewport: viewport(),
            events: vec![],
        })
        .collect();
    let tapes: Vec<Vec<u32>> = (0..25u32).map(|tick| (0..7).map(|i| tick * 5 + i).collect()).collect();
    // the seed does not matter where the draws are given
    let mut first = Simulation::new(&positions, links.clone(), config(), 1).ok().unwrap();
    let mut second = Simulation::new(&positions, links.clone(), config(), 2).ok().unwrap();
    run_with(&mut first, &frames, &tapes);
    run_with(&mut second, &frames, &tapes);
    assert_eq!(first.nodes(), second.nodes());
    let mut third = Simulation::new(&positions, links, config(), 3).ok().unwrap();
    for (frame, tape) in frames.iter().zip(tapes.iter()) {
        third.tick_with(frame.delta, &frame.viewport, &frame.events, tape);
    }
    assert_eq!(first.nodes(), third.nodes());
    // another tape gives another layout: nodes start at one point
    let mut other = Simulation::new(&positions, vec![], config(), 1).ok().unwrap();
    let mut same = Simulation::new(&positions, vec![], config(), 1).ok().unwrap();
    run_with(&mut other, &frames, &vec![vec![16; 7]]);
    run_with(&mut same, &frames, &vec![vec![0; 7]]);
    assert!(other.nodes() != same.nodes());
}
