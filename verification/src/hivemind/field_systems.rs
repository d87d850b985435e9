//! What the cells of the grid do to the fields.

use vstd::prelude::*;
use crate::world::flag::Flag;

verus! {

/// Marker of the food field.
pub struct Food;

/// Marker of the wall field.
pub struct Wall;

/// Marker of the attractor field.
pub struct Attractor;

/// Marker of the repellent field.
pub struct Repellent;

/// Marker of the density field.
pub struct Density;

/// What a cell does to one value of a field.
#[derive(Debug, Clone, Copy, PartialEq, Eq, Structural)]
pub enum FieldOp {
    /// The value stays.
    Keep,
    /// The value becomes zero.
    Clear,
    /// The source's strength is added to the value.
    Raise,
    /// The value becomes zero and the source's strength is added.
    Reset,
}

/// What a cell does to the fields at its place.
#[derive(Debug, Clone, Copy, PartialEq, Eq, Structural)]
pub struct Marks {
    pub food: FieldOp,
    pub wall: FieldOp,
    /// For the attractor and the repellent field alike.
    pub vectors: FieldOp,
}

/// What `cell` does to the fields. Food feeds the food field and clears
/// the wall field. A wall then feeds the wall field and clears the food
/// field and both vector fields. A colony then clears the wall field.
pub open spec fn marks_of(cell: Flag) -> Marks {
    let food = cell.has(Flag::HIVE_FOOD);
    let wall = cell.has(Flag::WALL);
    let colony = cell.has(Flag::COLONY_ALL);
    Marks {
        food: if wall {
            FieldOp::Clear
        } else if food {
            FieldOp::Raise
        } else {
            FieldOp::Keep
        },
        wall: if colony {
            FieldOp::Clear
        } else if wall {
            if food {
                FieldOp::Reset
            } else {
                FieldOp::Raise
            }
        } else if food {
            FieldOp::Clear
        } else {
            FieldOp::Keep
        },
        vectors: if wall {
            FieldOp::Clear
        } else {
            FieldOp::Keep
        },
    }
}

/// What `cell` does to the fields at its place.
pub fn update_world(cell: Flag) -> (marks: Marks)
    ensures
        marks == marks_of(cell),
{
    let mut food = FieldOp::Keep;
    let mut wall = FieldOp::Keep;
    let mut vectors = FieldOp::Keep;
    if cell.intersects(Flag::HIVE_FOOD) {
        food = FieldOp::Raise;
        wall = FieldOp::Clear;
    }
    if cell.intersects(Flag::WALL) {
        wall = match wall {
            FieldOp::Clear => FieldOp::Reset,
            _ => FieldOp::Raise,
        };
        food = FieldOp::Clear;
        vectors = FieldOp::Clear;
    }
    if cell.intersects(Flag::COLONY_ALL) {
        wall = FieldOp::Clear;
    }
    Marks { food, wall, vectors }
}

} // verus!
