//! Setting a router up, and the outposts that feed on what it found.

use vstd::prelude::*;
use crate::multivac::search::{toward, Multivac};
use crate::multivac::{Dir, WireKind};
use crate::world::flag::Flag;
use crate::world::map::{GridMap, GridPos};

verus! {

/// Settings of the router. Times are in milliseconds.
pub struct Config {
    /// Where the first router stands.
    pub location: GridPos,
    /// The wait before a router's first tick.
    pub route_clock: u32,
    /// The period of an outpost.
    pub gather_clock: u32,
    /// The delay of a piece of wire for each step of its distance.
    pub route_delay: u32,
    /// How much an outpost takes from its cell each period.
    pub gather_rate: u32,
}

impl Config {
    pub fn default() -> (config: Config)
        ensures
            config.location == (GridPos { x: 75, y: 75 }),
            config.route_clock == 100,
            config.gather_clock == 1000,
            config.route_delay == 300,
            config.gather_rate == 50,
    {
        Config {
            location: GridPos::splat(75),
            route_clock: 100,
            gather_clock: 1000,
            route_delay: 300,
            gather_rate: 50,
        }
    }
}

/// The loose end of wire that one direction gets at set-up: one at the
/// position next to `location` where that lies in the grid.
pub open spec fn stub<const W: usize, const H: usize>(location: GridPos, dir: Dir) -> Seq<
    (GridPos, WireKind),
> {
    if GridMap::<W, H>::contains(toward(location, dir)) {
        seq![(toward(location, dir), WireKind::Disconnect(dir))]
    } else {
        Seq::empty()
    }
}

/// The loose ends around `location`: west, east, south, north.
pub open spec fn stubs<const W: usize, const H: usize>(location: GridPos) -> Seq<
    (GridPos, WireKind),
> {
    stub::<W, H>(location, Dir::West) + stub::<W, H>(location, Dir::East) + stub::<W, H>(
        location,
        Dir::South,
    ) + stub::<W, H>(location, Dir::North)
}

/// The cell of a router: what was there, and the router kind.
pub open spec fn with_router(cell: Flag) -> Flag {
    Flag { bits: cell.bits | Flag::MULTIVAC }
}

/// Sets a router up at `position`: its cell, where it is in the grid, gets
/// the router kind, and loose ends of wire are handed back for the
/// positions around `location` that lie in the grid.
pub fn setup<const W: usize, const H: usize>(
    position: GridPos,
    location: GridPos,
    map: &mut GridMap<W, H>,
) -> (made: (Multivac, Vec<(GridPos, WireKind)>))
    requires
        old(map).wf(),
        position.can_step(),
        location.can_step(),
    ensures
        final(map).wf(),
        made.0.wf(),
        made.0.start() == position,
        made.0.trail() == Map::<GridPos, GridPos>::empty(),
        made.0.pending().len() == 0,
        made.1@ == stubs::<W, H>(location),
        final(map)@ == if GridMap::<W, H>::in_bounds(position.x as int, position.y as int) {
            old(map)@.update(
                position.y * W + position.x,
                with_router(old(map).at(position.x as int, position.y as int)),
            )
        } else {
            old(map)@
        },
{
    let multivac = Multivac::new(position);
    if position.x >= 0 && position.y >= 0 {
        match map.get(position.x as usize, position.y as usize) {
            Some(cell) => {
                let mut marked = cell;
                marked.insert(Flag::MULTIVAC);
                map.set(position.x as usize, position.y as usize, marked);
            },
            None => {},
        }
    }
    let mut ends: Vec<(GridPos, WireKind)> = Vec::new();
    push_stub(&mut ends, map, location, Dir::West);
    push_stub(&mut ends, map, location, Dir::East);
    push_stub(&mut ends, map, location, Dir::South);
    push_stub(&mut ends, map, location, Dir::North);
    assert(ends@ =~= stubs::<W, H>(location));
    (multivac, ends)
}

fn push_stub<const W: usize, const H: usize>(
    ends: &mut Vec<(GridPos, WireKind)>,
    map: &GridMap<W, H>,
    location: GridPos,
    dir: Dir,
)
    requires
        map.wf(),
        location.can_step(),
    ensures
        final(ends)@ == old(ends)@ + stub::<W, H>(location, dir),
{
    let n = crate::multivac::search::neighbor(location, dir);
    if map.get_ivec2(n).is_some() {
        ends.push((n, WireKind::Disconnect(dir)));
    }
    assert(ends@ =~= old(ends)@ + stub::<W, H>(location, dir));
}

/// What became of an outpost in one period.
#[derive(Debug, Clone, Copy, PartialEq, Eq, Structural)]
pub enum OutpostFate {
    /// The position is not a cell of the grid; nothing was done.
    Missing,
    /// Nothing was left to gather: the cell is a router now.
    Promoted,
    /// The outpost took its share.
    Gathered,
}

/// The cell of an outpost after one period. A cell with nothing the router
/// connects to becomes a router and nothing else. One with a quantity
/// loses `rate` of it, or all where less is left. One whose quantity is
/// zero loses the kinds that the router connects to.
pub open spec fn harvested(cell: Flag, rate: u32) -> Flag {
    if !cell.has(Flag::MULTIVAC_FOOD) {
        Flag { bits: Flag::MULTIVAC }
    } else if cell.quantity() == 0 {
        Flag { bits: cell.bits & !Flag::MULTIVAC_FOOD }
    } else if cell.quantity() <= rate {
        cell.with_quantity(0)
    } else {
        cell.with_quantity((cell.quantity() - rate) as u32)
    }
}

/// One period of the outpost at `pos`.
pub fn promote_outpost<const W: usize, const H: usize>(
    map: &mut GridMap<W, H>,
    pos: GridPos,
    gather_rate: u32,
) -> (fate: OutpostFate)
    requires
        old(map).wf(),
    ensures
        final(map).wf(),
        !GridMap::<W, H>::contains(pos) ==> fate == OutpostFate::Missing && final(map)@ == old(map)@,
        GridMap::<W, H>::contains(pos) ==> final(map)@ == old(map)@.update(
            pos.y * W + pos.x,
            harvested(old(map).at(pos.x as int, pos.y as int), gather_rate),
        ),
        GridMap::<W, H>::contains(pos) ==> fate == if old(map).at(pos.x as int, pos.y as int).has(
            Flag::MULTIVAC_FOOD,
        ) {
            OutpostFate::Gathered
        } else {
            OutpostFate::Promoted
        },
{
    let cell = match map.get_ivec2(pos) {
        Some(c) => c,
        None => {
            return OutpostFate::Missing;
        },
    };
    let x = pos.x as usize;
    let y = pos.y as usize;
    if !cell.intersects(Flag::MULTIVAC_FOOD) {
        map.set(x, y, Flag::from_bits_truncate(Flag::MULTIVAC));
        OutpostFate::Promoted
    } else {
        let resource = cell.get_resource_quantity();
        let mut next = cell;
        if resource == 0 {
            next.remove(Flag::MULTIVAC_FOOD);
        } else {
            let taken = if resource < gather_rate {
                resource
            } else {
                gather_rate
            };
            next.set_resource_quantity(resource - taken);
        }
        map.set(x, y, next);
        OutpostFate::Gathered
    }
}

} // verus!
