//! The grid and what is stored in its cells.

pub mod flag;
pub mod input;
pub mod map;
pub mod save;
pub mod setup;

use vstd::prelude::*;
use crate::WORLD_SIZE;

verus! {

/// The grid of the world.
pub type WorldMap = map::GridMap<WORLD_SIZE, WORLD_SIZE>;

} // verus!
