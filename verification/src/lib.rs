//! Core of a turn-based dungeon simulation: geometry, a tile map with a
//! seeded dungeon generator, A* pathfinding, an action protocol, AI brains,
//! and the level scheduler that drives one round of turns per tick.

use vstd::prelude::*;

pub mod util;
pub mod rng;
pub mod map;
pub mod ai;
pub mod action;
pub mod actor;
pub mod brain;
pub mod item;
pub mod level;

verus! {

/// How a finished game run should be wound down: by writing the seed
/// to the save slot, or by discarding it.
#[derive(PartialEq, Eq, Structural, Copy, Clone, Debug)]
pub enum Exit {
    Save,
    Die,
}

} // verus!
