[package]
name = "force_directed_graph"
version = "0.1.0"
edition = "2021"
publish = false

[dependencies]
rand = { version = "=0.9.5", features = ["small_rng"] }
clap = { version = "=4.6.7", default-features = false, features = ["derive", "std", "help", "usage", "error-context"] }
petgraph = "=0.7.1"
dot-parser = "=0.6.1"
bevy = { version = "=0.15.3", default-features = false, features = ["bevy_winit", "bevy_core_pipeline", "bevy_sprite", "bevy_picking", "bevy_mesh_picking_backend", "bevy_window", "x11"] }
