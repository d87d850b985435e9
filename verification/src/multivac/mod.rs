//! The router: it searches the grid breadth first for something to connect
//! to, then lays wire back along the way it came.

pub mod budget;
pub mod outpost;
pub mod reach;
pub mod route;
pub mod search;
pub mod tick;

use vstd::prelude::*;
use crate::world::map::GridPos;

verus! {

/// One entry of the search queue: a position and the position it was
/// reached from.
#[derive(Debug, Clone, Copy, PartialEq, Eq, Structural)]
pub struct SearchPath {
    pub pos: GridPos,
    pub prev: GridPos,
}

impl SearchPath {
    pub fn new(current: GridPos, prev: GridPos) -> (path: SearchPath)
        ensures
            path == (SearchPath { pos: current, prev }),
    {
        SearchPath { pos: current, prev }
    }
}

/// A step along one axis, or none.
#[derive(Debug, Clone, Copy, PartialEq, Eq, Structural)]
pub enum Dir {
    /// Not a single step along one axis.
    Nowhere,
    North,
    South,
    East,
    West,
}

impl Dir {
    /// The step along the columns.
    pub open spec fn dx(self) -> int {
        match self {
            Dir::East => 1,
            Dir::West => -1,
            _ => 0,
        }
    }

    /// The step along the rows.
    pub open spec fn dy(self) -> int {
        match self {
            Dir::North => 1,
            Dir::South => -1,
            _ => 0,
        }
    }

    /// The direction whose step is `(dx, dy)`; `Nowhere` where there is none.
    pub open spec fn of(dx: int, dy: int) -> Dir {
        if dx == 0 && dy == 1 {
            Dir::North
        } else if dx == 0 && dy == -1 {
            Dir::South
        } else if dx == 1 && dy == 0 {
            Dir::East
        } else if dx == -1 && dy == 0 {
            Dir::West
        } else {
            Dir::Nowhere
        }
    }

    /// The direction of the step `d`.
    pub fn from_ivec2(d: GridPos) -> (dir: Dir)
        ensures
            dir == Dir::of(d.x as int, d.y as int),
    {
        if d.x == 0 && d.y == 1 {
            Dir::North
        } else if d.x == 0 && d.y == -1 {
            Dir::South
        } else if d.x == 1 && d.y == 0 {
            Dir::East
        } else if d.x == -1 && d.y == 0 {
            Dir::West
        } else {
            Dir::Nowhere
        }
    }

    /// The direction of the step that leads from `from` to `to`.
    pub fn between(from: GridPos, to: GridPos) -> (dir: Dir)
        ensures
            dir == Dir::of(to.x - from.x, to.y - from.y),
    {
        let dx: i64 = to.x as i64 - from.x as i64;
        let dy: i64 = to.y as i64 - from.y as i64;
        if dx == 0 && dy == 1 {
            Dir::North
        } else if dx == 0 && dy == -1 {
            Dir::South
        } else if dx == 1 && dy == 0 {
            Dir::East
        } else if dx == -1 && dy == 0 {
            Dir::West
        } else {
            Dir::Nowhere
        }
    }
}

/// The shape of a piece of wire: the sides on which it joins.
#[derive(Debug, Clone, Copy, PartialEq, Eq, Structural)]
pub enum WireKind {
    Disconnect(Dir),
    Connect(Dir, Dir),
}

impl WireKind {
    /// The wire at `pos` on a route that came from `prev` and goes on to
    /// `next`: it joins on the side facing away from each.
    pub open spec fn joining(prev: GridPos, pos: GridPos, next: GridPos) -> WireKind {
        WireKind::Connect(
            Dir::of(pos.x - prev.x, pos.y - prev.y),
            Dir::of(pos.x - next.x, pos.y - next.y),
        )
    }

    pub fn from_route(prev: GridPos, pos: GridPos, next: GridPos) -> (kind: WireKind)
        ensures
            kind == WireKind::joining(prev, pos, next),
    {
        WireKind::Connect(Dir::between(prev, pos), Dir::between(next, pos))
    }
}

/// Where the router stands in its cycle of searching and building.
#[derive(Debug, Clone, Copy, PartialEq, Eq)]
pub enum MultivacState {
    /// Nothing searched yet.
    Init,
    /// Something to connect to was found at this position.
    InitRoute(GridPos),
    /// A route is to be laid from this position back to the origin.
    Route(GridPos),
    /// A route is being laid. Never the result of a step.
    InFlight,
    /// Searching; with the position that was opened last, if one was.
    Search(Option<GridPos>),
    Stop,
    Error,
}

} // verus!
