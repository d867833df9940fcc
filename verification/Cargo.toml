[package]
name = "dungeon_core"
version = "0.1.0"
edition = "2021"
publish = false

[dependencies]
rand = "0.7"
rand_core = "0.5"
rand_isaac = "0.2"
pathfinding = "*"
hashbrown = "*"
dirs = "*"
