//! Laying wire from a found position back toward the origin.

use vstd::prelude::*;
use crate::multivac::search::Multivac;
use crate::multivac::{MultivacState, WireKind};
use crate::world::flag::Flag;
use crate::world::map::{lemma_cell_index, GridMap, GridPos};

verus! {

/// Something for the caller to do after a step of the router.
#[derive(Debug, Clone, Copy, PartialEq, Eq, Structural)]
pub enum Effect {
    /// Mark the position briefly.
    Ping(GridPos),
    /// Mark the position for longer.
    PingLong(GridPos),
    /// Start an outpost at the position.
    Outpost(GridPos),
    /// Place a piece of wire; `distance` counts the steps from the far end
    /// of the route, by which the placing is delayed.
    Wire { pos: GridPos, kind: WireKind, distance: usize },
}

/// The grid, the state and the effects after a walk.
pub struct Laid {
    pub cells: Seq<Flag>,
    pub state: MultivacState,
    pub effects: Seq<Effect>,
}

/// The walk from `prev` back along the trail, after `walked` steps. Each
/// step looks up the position before `prev` and the one before that. A
/// missing link, a position outside the grid, a cell that is not empty
/// or a step count that reaches the area of the grid ends the walk in
/// `Error`; a router cell ends it in `Stop`. Else the cell becomes wire
/// and the walk goes on from there.
pub open spec fn route_walk<const W: usize, const H: usize>(
    trail: Map<GridPos, GridPos>,
    cells: Seq<Flag>,
    prev: GridPos,
    walked: nat,
) -> Laid
    decreases W * H - walked,
{
    let count = walked + 1;
    let pos = trail[prev];
    let next = trail[pos];
    let at = pos.y * W + pos.x;
    if !trail.contains_key(prev) || !trail.contains_key(pos) || !GridMap::<W, H>::contains(pos) {
        Laid { cells, state: MultivacState::Error, effects: Seq::empty() }
    } else if cells[at].has(Flag::MULTIVAC) {
        Laid { cells, state: MultivacState::Stop, effects: Seq::empty() }
    } else if cells[at].bits != 0 || count >= W * H {
        Laid { cells, state: MultivacState::Error, effects: Seq::empty() }
    } else {
        let rest = route_walk::<W, H>(trail, cells.update(at, Flag { bits: Flag::WIRE }), pos, count);
        Laid {
            cells: rest.cells,
            state: rest.state,
            effects: seq![
                Effect::Wire { pos, kind: WireKind::joining(prev, pos, next), distance: count as usize },
                Effect::PingLong(pos),
            ] + rest.effects,
        }
    }
}

/// A walk ends in `Stop` or in `Error`, lays fewer pieces of wire than the
/// grid has cells, and keeps the number of cells.
pub proof fn lemma_route_walk_bounded<const W: usize, const H: usize>(
    trail: Map<GridPos, GridPos>,
    cells: Seq<Flag>,
    prev: GridPos,
    walked: nat,
)
    requires
        GridMap::<W, H>::fits(),
        cells.len() == W * H,
    ensures
        route_walk::<W, H>(trail, cells, prev, walked).state == MultivacState::Stop || route_walk::<
            W,
            H,
        >(trail, cells, prev, walked).state == MultivacState::Error,
        walked < W * H ==> route_walk::<W, H>(trail, cells, prev, walked).effects.len() + 2 * walked
            < 2 * (W * H),
        walked >= W * H ==> route_walk::<W, H>(trail, cells, prev, walked).effects.len() == 0,
        route_walk::<W, H>(trail, cells, prev, walked).cells.len() == cells.len(),
    decreases W * H - walked,
{
    let count = walked + 1;
    let pos = trail[prev];
    let at = pos.y * W + pos.x;
    if !trail.contains_key(prev) || !trail.contains_key(pos) || !GridMap::<W, H>::contains(pos) {
    } else if cells[at].has(Flag::MULTIVAC) {
    } else if cells[at].bits != 0 || count >= W * H {
    } else {
        lemma_cell_index(pos.x as int, pos.y as int, W as int, H as int);
        lemma_route_walk_bounded::<W, H>(
            trail,
            cells.update(at, Flag { bits: Flag::WIRE }),
            pos,
            count,
        );
    }
}

impl Multivac {
    /// Walks the trail from `p` back toward the origin and lays wire on the
    /// way, all in one call. The walk takes fewer steps than the grid has
    /// cells and never ends in `InFlight`.
    pub fn route<const W: usize, const H: usize>(&self, p: GridPos, map: &mut GridMap<W, H>) -> (laid: (
        MultivacState,
        Vec<Effect>,
    ))
        requires
            old(map).wf(),
        ensures
            final(map).wf(),
            final(map)@ == route_walk::<W, H>(self.trail(), old(map)@, p, 0).cells,
            laid.0 == route_walk::<W, H>(self.trail(), old(map)@, p, 0).state,
            laid.1@ == route_walk::<W, H>(self.trail(), old(map)@, p, 0).effects,
            laid.0 == MultivacState::Stop || laid.0 == MultivacState::Error,
            laid.1@.len() < 2 * (W * H) || W * H == 0,
    {
        let ghost trail = self.trail();
        let ghost total = route_walk::<W, H>(trail, map@, p, 0);
        proof {
            lemma_route_walk_bounded::<W, H>(trail, map@, p, 0);
        }
        let area: usize = W * H;
        let mut effects: Vec<Effect> = Vec::new();
        let mut prev = p;
        let mut distance_count: usize = 0;
        let mut state = MultivacState::InFlight;
        let mut walking = true;
        while walking
            invariant
                map.wf(),
                area == W * H,
                trail == self.trail(),
                distance_count <= area,
                walking ==> total.cells == route_walk::<W, H>(trail, map@, prev, distance_count as nat).cells,
                walking ==> total.state == route_walk::<W, H>(trail, map@, prev, distance_count as nat).state,
                walking ==> total.effects == effects@ + route_walk::<W, H>(
                    trail,
                    map@,
                    prev,
                    distance_count as nat,
                ).effects,
                !walking ==> total.cells == map@ && total.state == state && total.effects == effects@,
            decreases area - distance_count + (if walking { 1int } else { 0int }),
        {
            let ghost here = route_walk::<W, H>(trail, map@, prev, distance_count as nat);
            walking = false;
            let pos = match self.reached_from(prev) {
                Some(q) => q,
                None => {
                    state = MultivacState::Error;
                    assert(total.effects =~= effects@);
                    continue ;
                },
            };
            let next = match self.reached_from(pos) {
                Some(q) => q,
                None => {
                    state = MultivacState::Error;
                    assert(total.effects =~= effects@);
                    continue ;
                },
            };
            let pos_flags = match map.get_ivec2(pos) {
                Some(f) => f,
                None => {
                    state = MultivacState::Error;
                    assert(total.effects =~= effects@);
                    continue ;
                },
            };
            if pos_flags.intersects(Flag::MULTIVAC) {
                state = MultivacState::Stop;
                assert(total.effects =~= effects@);
                continue ;
            }
            if !pos_flags.is_empty() || area - distance_count <= 1 {
                state = MultivacState::Error;
                assert(total.effects =~= effects@);
                continue ;
            }
            distance_count += 1;
            proof {
                lemma_cell_index(pos.x as int, pos.y as int, W as int, H as int);
            }
            let mut wire = Flag::empty();
            wire.insert(Flag::WIRE);
            assert(0u32 | 0x0000_0080u32 == 0x0000_0080u32) by (bit_vector);
            map.set(pos.x as usize, pos.y as usize, wire);
            effects.push(Effect::Wire { pos, kind: WireKind::from_route(prev, pos, next), distance: distance_count });
            effects.push(Effect::PingLong(pos));
            proof {
                assert(total.effects =~= effects@ + route_walk::<W, H>(
                    trail,
                    map@,
                    pos,
                    distance_count as nat,
                ).effects);
            }
            prev = pos;
            walking = true;
        }
        (state, effects)
    }
}

} // verus!
