//! A colony simulation on a bounded grid: packed grid cells, double-buffered
//! fields, the drone state machine, colony upkeep and the router's search and
//! route construction.

pub mod camera;
pub mod game;
pub mod hivemind;
pub mod multivac;
pub mod world;

use vstd::prelude::*;

verus! {

/// Side length of the square world, in cells.
pub const WORLD_SIZE: usize = 100;

} // verus!
