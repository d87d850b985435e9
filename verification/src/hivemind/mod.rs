//! The colonies and their drones, and what the drones do to the grid.

pub mod colony;
pub mod field;
pub mod field_systems;

use vstd::prelude::*;
use crate::world::flag::Flag;
use crate::world::map::GridMap;

verus! {

/// The cell after a drone has gathered from it: one unit less, or, where
/// nothing was left, no longer food.
pub open spec fn gathered(cell: Flag) -> Flag {
    if cell.quantity() > 0 {
        cell.with_quantity((cell.quantity() - 1) as u32)
    } else {
        Flag { bits: cell.bits & !Flag::HIVE_FOOD }
    }
}

/// The cell after a drone has deposited into it: one unit more, up to the
/// largest quantity a cell can store.
pub open spec fn deposited(cell: Flag) -> Flag {
    if cell.quantity() < Flag::MAX_RESOURCE_COUNT {
        cell.with_quantity((cell.quantity() + 1) as u32)
    } else {
        cell
    }
}

/// A drone gathers from the cell at column `x`, row `y`. Outside the grid
/// nothing happens and the answer is `false`.
pub fn gather<const W: usize, const H: usize>(map: &mut GridMap<W, H>, x: usize, y: usize) -> (done:
    bool)
    requires
        old(map).wf(),
    ensures
        final(map).wf(),
        done == GridMap::<W, H>::in_bounds(x as int, y as int),
        done ==> final(map)@ == old(map)@.update(y * W + x, gathered(old(map).at(x as int, y as int))),
        !done ==> final(map)@ == old(map)@,
{
    match map.get(x, y) {
        Some(cell) => {
            let resource = cell.get_resource_quantity();
            let mut next = cell;
            if resource > 0 {
                next.set_resource_quantity(resource - 1);
            } else {
                next.remove(Flag::HIVE_FOOD);
            }
            map.set(x, y, next)
        },
        None => false,
    }
}

/// A drone deposits into the cell at column `x`, row `y`. Outside the grid
/// nothing happens and the answer is `false`.
pub fn deposit<const W: usize, const H: usize>(map: &mut GridMap<W, H>, x: usize, y: usize) -> (done:
    bool)
    requires
        old(map).wf(),
    ensures
        final(map).wf(),
        done == GridMap::<W, H>::in_bounds(x as int, y as int),
        done ==> final(map)@ == old(map)@.update(y * W + x, deposited(old(map).at(x as int, y as int))),
        !done ==> final(map)@ == old(map)@,
{
    match map.get(x, y) {
        Some(cell) => {
            let resource = cell.get_resource_quantity();
            let mut next = cell;
            if resource < Flag::MAX_RESOURCE_COUNT {
                next.set_resource_quantity(resource + 1);
            }
            map.set(x, y, next)
        },
        None => false,
    }
}

} // verus!
