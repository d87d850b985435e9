//! One tick of the router: what it does in each state, and how long it
//! then waits.

use vstd::prelude::*;
use crate::multivac::route::{route_walk, Effect};
use crate::multivac::search::{search_step, seeds, Multivac};
use crate::multivac::{MultivacState, SearchPath};
use crate::world::flag::Flag;
use crate::world::map::{GridMap, GridPos};

verus! {

/// The router and the grid after a tick, the next state, and what the
/// caller is to do.
pub struct Turn {
    pub trail: Map<GridPos, GridPos>,
    pub pending: Seq<SearchPath>,
    pub cells: Seq<Flag>,
    pub state: MultivacState,
    pub effects: Seq<Effect>,
}

/// The ping that a search state asks for: one at the position it opened.
pub open spec fn ping_of(state: MultivacState) -> Seq<Effect> {
    match state {
        MultivacState::Search(Some(p)) => seq![Effect::Ping(p)],
        _ => Seq::empty(),
    }
}

/// Whether the search goes on after a step that gave `state`.
pub open spec fn searching(state: MultivacState) -> bool {
    state is Search
}

/// Up to `rounds` rounds of search, each a forward step and then a reverse
/// step. A step that gives another state than `Search` ends the sweep with
/// that state. With no round at all the state is `last`.
pub open spec fn search_rounds<const W: usize, const H: usize>(
    trail: Map<GridPos, GridPos>,
    pending: Seq<SearchPath>,
    map: GridMap<W, H>,
    rounds: nat,
    last: MultivacState,
) -> Turn
    decreases rounds,
{
    if rounds == 0 {
        Turn { trail, pending, cells: map@, state: last, effects: Seq::empty() }
    } else {
        let a = search_step(trail, pending, map, false);
        let b = search_step(a.trail, a.pending, map, true);
        if !searching(a.state) {
            Turn { trail: a.trail, pending: a.pending, cells: map@, state: a.state, effects: Seq::empty() }
        } else if !searching(b.state) {
            Turn {
                trail: b.trail,
                pending: b.pending,
                cells: map@,
                state: b.state,
                effects: ping_of(a.state),
            }
        } else {
            let rest = search_rounds(b.trail, b.pending, map, (rounds - 1) as nat, b.state);
            Turn {
                trail: rest.trail,
                pending: rest.pending,
                cells: map@,
                state: rest.state,
                effects: ping_of(a.state) + ping_of(b.state) + rest.effects,
            }
        }
    }
}

/// What a tick does in `state`.
///
/// `Init`, `Stop` and `Error` start the search afresh. `InitRoute` marks
/// its position an outpost and goes on to `Route`; at a position that is
/// outside the grid it gives `Error`. `Route` lays the wire. `Search` sweeps
/// for half as many rounds as the queue is long. `InFlight` is never left
/// behind by a tick, so finding it is an `Error`.
pub open spec fn tick<const W: usize, const H: usize>(
    origin: GridPos,
    trail: Map<GridPos, GridPos>,
    pending: Seq<SearchPath>,
    map: GridMap<W, H>,
    state: MultivacState,
) -> Turn {
    match state {
        MultivacState::Init | MultivacState::Stop | MultivacState::Error => Turn {
            trail: Map::<GridPos, GridPos>::empty().insert(origin, GridPos { x: 0, y: 0 }),
            pending: seeds::<W, H>(origin),
            cells: map@,
            state: MultivacState::Search(None),
            effects: Seq::empty(),
        },
        MultivacState::InitRoute(p) => if GridMap::<W, H>::contains(p) {
            Turn {
                trail,
                pending,
                cells: map@.update(
                    p.y * W + p.x,
                    Flag { bits: map.at(p.x as int, p.y as int).bits | Flag::OUTPOST },
                ),
                state: MultivacState::Route(p),
                effects: seq![Effect::Ping(p), Effect::Outpost(p)],
            }
        } else {
            Turn { trail, pending, cells: map@, state: MultivacState::Error, effects: Seq::empty() }
        },
        MultivacState::Route(p) => Turn {
            trail,
            pending,
            cells: route_walk::<W, H>(trail, map@, p, 0).cells,
            state: route_walk::<W, H>(trail, map@, p, 0).state,
            effects: route_walk::<W, H>(trail, map@, p, 0).effects,
        },
        MultivacState::InFlight => Turn {
            trail,
            pending,
            cells: map@,
            state: MultivacState::Error,
            effects: Seq::empty(),
        },
        MultivacState::Search(_) => search_rounds(
            trail,
            pending,
            map,
            pending.len() / 2,
            MultivacState::Stop,
        ),
    }
}

/// The wait before the next tick, in milliseconds: long before and after a
/// fresh start, none before an outpost is marked, short otherwise.
pub open spec fn wait_millis(state: MultivacState) -> u32 {
    match state {
        MultivacState::Init => 50_000,
        MultivacState::InitRoute(_) => 0,
        MultivacState::Route(_) => 500,
        MultivacState::InFlight => 100,
        MultivacState::Search(_) => 100,
        MultivacState::Stop => 50_000,
        MultivacState::Error => 50_000,
    }
}

/// The wait before the next tick of a router in `state`, in milliseconds.
pub fn next_clock(state: MultivacState) -> (millis: u32)
    ensures
        millis == wait_millis(state),
{
    match state {
        MultivacState::Init => 50_000,
        MultivacState::InitRoute(_) => 0,
        MultivacState::Route(_) => 500,
        MultivacState::InFlight => 100,
        MultivacState::Search(_) => 100,
        MultivacState::Stop => 50_000,
        MultivacState::Error => 50_000,
    }
}

impl Multivac {
    /// Searches for half as many rounds as the queue is long, a forward and
    /// a reverse step in each, and stops early on the first state other
    /// than `Search`. Each position opened is pinged.
    pub fn sweep<const W: usize, const H: usize>(&mut self, map: &GridMap<W, H>) -> (swept: (
        MultivacState,
        Vec<Effect>,
    ))
        requires
            old(self).wf(),
            map.wf(),
        ensures
            final(self).wf(),
            final(self).start() == old(self).start(),
            final(self).trail() == search_rounds(
                old(self).trail(),
                old(self).pending(),
                *map,
                old(self).pending().len() / 2,
                MultivacState::Stop,
            ).trail,
            final(self).pending() == search_rounds(
                old(self).trail(),
                old(self).pending(),
                *map,
                old(self).pending().len() / 2,
                MultivacState::Stop,
            ).pending,
            swept.0 == search_rounds(
                old(self).trail(),
                old(self).pending(),
                *map,
                old(self).pending().len() / 2,
                MultivacState::Stop,
            ).state,
            swept.1@ == search_rounds(
                old(self).trail(),
                old(self).pending(),
                *map,
                old(self).pending().len() / 2,
                MultivacState::Stop,
            ).effects,
            swept.1@.len() <= old(self).pending().len(),
            swept.0 != MultivacState::InFlight,
    {
        let rounds: usize = self.queued() / 2;
        proof {
            lemma_sweep_pings(self.trail(), self.pending(), *map, rounds as nat, MultivacState::Stop);
            lemma_sweep_state(self.trail(), self.pending(), *map, rounds as nat, MultivacState::Stop);
        }
        let ghost total = search_rounds(
            self.trail(),
            self.pending(),
            *map,
            rounds as nat,
            MultivacState::Stop,
        );
        let mut effects: Vec<Effect> = Vec::new();
        let mut state = MultivacState::Stop;
        let mut live = true;
        let mut i: usize = 0;
        while live && i < rounds
            invariant
                self.wf(),
                map.wf(),
                self.start() == old(self).start(),
                i <= rounds,
                live ==> total.trail == search_rounds(
                    self.trail(),
                    self.pending(),
                    *map,
                    (rounds - i) as nat,
                    state,
                ).trail,
                live ==> total.pending == search_rounds(
                    self.trail(),
                    self.pending(),
                    *map,
                    (rounds - i) as nat,
                    state,
                ).pending,
                live ==> total.state == search_rounds(
                    self.trail(),
                    self.pending(),
                    *map,
                    (rounds - i) as nat,
                    state,
                ).state,
                live ==> total.effects == effects@ + search_rounds(
                    self.trail(),
                    self.pending(),
                    *map,
                    (rounds - i) as nat,
                    state,
                ).effects,
                !live ==> total.trail == self.trail() && total.pending == self.pending()
                    && total.state == state && total.effects == effects@,
            decreases rounds - i + (if live { 1int } else { 0int }),
        {
            let ghost before = effects@;
            state = self.search(map);
            match state {
                MultivacState::Search(Some(p)) => {
                    effects.push(Effect::Ping(p));
                },
                MultivacState::Search(None) => {},
                _ => {
                    live = false;
                    assert(total.effects =~= effects@);
                },
            }
            if live {
                let ghost first = state;
                state = self.search_reverse(map);
                match state {
                    MultivacState::Search(Some(p)) => {
                        effects.push(Effect::Ping(p));
                    },
                    MultivacState::Search(None) => {},
                    _ => {
                        live = false;
                        assert(total.effects =~= effects@);
                    },
                }
                if live {
                    i += 1;
                    proof {
                        let rest = search_rounds(
                            self.trail(),
                            self.pending(),
                            *map,
                            (rounds - i) as nat,
                            state,
                        );
                        assert(effects@ =~= before + ping_of(first) + ping_of(state));
                        assert(total.effects =~= effects@ + rest.effects);
                    }
                }
            }
        }
        proof {
            assert(total.effects =~= effects@);
        }
        (state, effects)
    }

    /// One tick of the router in `state`: the next state, and what the
    /// caller is to do.
    pub fn update<const W: usize, const H: usize>(
        &mut self,
        state: MultivacState,
        map: &mut GridMap<W, H>,
    ) -> (turn: (MultivacState, Vec<Effect>))
        requires
            old(self).wf(),
            old(map).wf(),
        ensures
            final(self).wf(),
            final(map).wf(),
            final(self).start() == old(self).start(),
            final(self).trail() == tick(
                old(self).start(),
                old(self).trail(),
                old(self).pending(),
                *old(map),
                state,
            ).trail,
            final(self).pending() == tick(
                old(self).start(),
                old(self).trail(),
                old(self).pending(),
                *old(map),
                state,
            ).pending,
            final(map)@ == tick(
                old(self).start(),
                old(self).trail(),
                old(self).pending(),
                *old(map),
                state,
            ).cells,
            turn.0 == tick(
                old(self).start(),
                old(self).trail(),
                old(self).pending(),
                *old(map),
                state,
            ).state,
            turn.1@ == tick(
                old(self).start(),
                old(self).trail(),
                old(self).pending(),
                *old(map),
                state,
            ).effects,
            turn.0 != MultivacState::InFlight,
    {
        match state {
            MultivacState::Init | MultivacState::Stop | MultivacState::Error => {
                let next = self.init(map);
                (next, Vec::new())
            },
            MultivacState::InitRoute(p) => {
                match map.get_ivec2(p) {
                    Some(cell) => {
                        let mut marked = cell;
                        marked.insert(Flag::OUTPOST);
                        map.set(p.x as usize, p.y as usize, marked);
                        let mut effects: Vec<Effect> = Vec::new();
                        effects.push(Effect::Ping(p));
                        effects.push(Effect::Outpost(p));
                        assert(effects@ =~= seq![Effect::Ping(p), Effect::Outpost(p)]);
                        (MultivacState::Route(p), effects)
                    },
                    None => (MultivacState::Error, Vec::new()),
                }
            },
            MultivacState::Route(p) => self.route(p, map),
            MultivacState::InFlight => (MultivacState::Error, Vec::new()),
            MultivacState::Search(_) => {
                self.sweep(map)
            },
        }
    }
}

/// A sweep of `rounds` rounds pings at most twice as often.
pub proof fn lemma_sweep_pings<const W: usize, const H: usize>(
    trail: Map<GridPos, GridPos>,
    pending: Seq<SearchPath>,
    map: GridMap<W, H>,
    rounds: nat,
    last: MultivacState,
)
    ensures
        search_rounds(trail, pending, map, rounds, last).effects.len() <= 2 * rounds,
    decreases rounds,
{
    if rounds > 0 {
        let a = search_step(trail, pending, map, false);
        let b = search_step(a.trail, a.pending, map, true);
        if searching(a.state) && searching(b.state) {
            lemma_sweep_pings(b.trail, b.pending, map, (rounds - 1) as nat, b.state);
        }
    }
}

/// A sweep never ends in `InFlight`, unless it made no round and began
/// with it.
pub proof fn lemma_sweep_state<const W: usize, const H: usize>(
    trail: Map<GridPos, GridPos>,
    pending: Seq<SearchPath>,
    map: GridMap<W, H>,
    rounds: nat,
    last: MultivacState,
)
    requires
        last != MultivacState::InFlight,
    ensures
        search_rounds(trail, pending, map, rounds, last).state != MultivacState::InFlight,
    decreases rounds,
{
    if rounds > 0 {
        let a = search_step(trail, pending, map, false);
        let b = search_step(a.trail, a.pending, map, true);
        if searching(a.state) && searching(b.state) {
            lemma_sweep_state(b.trail, b.pending, map, (rounds - 1) as nat, b.state);
        }
    }
}

} // verus!
