[package]
name = "grid_agents"
version = "0.1.0"
edition = "2021"
publish = false

[dependencies]
comfy = { version = "0.4", default-features = false }
indexmap = "2"
lazy_static = "1"
pathfinding = "4"
quad-rand = "*"
tiled = { version = "0.16", default-features = false }
