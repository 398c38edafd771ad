//! A force-directed layout engine for graphs.
//!
//! The nodes of a graph are laid out in the plane by a simulation: links
//! pull their two ends towards a rest length, all nodes repel each other,
//! and a few more forces keep the layout centred and in view. Positions are
//! advanced by Verlet integration, which allows for time steps of varying
//! length. A node that the user holds is locked: it stays where the user
//! puts it until it is released.
//!
//! All numbers are fixed-point numbers, so that every contract states the
//! exact outcome of the arithmetic. See [`scalar`].

pub mod common;
pub mod forces;
pub mod mouse;
pub mod random;
pub mod scalar;
pub mod simulation;
pub mod utils;
pub mod vector;
pub mod verlet;
