//! The breadth-first search of the router.

use std::collections::HashMap;
use std::collections::VecDeque;
use vstd::prelude::*;
use crate::multivac::{Dir, MultivacState, SearchPath};
use crate::world::flag::Flag;
use crate::world::map::{GridMap, GridPos};

verus! {

broadcast use vstd::std_specs::hash::group_hash_axioms;

/// The number under which a position is filed. Different positions get
/// different numbers.
pub open spec fn key_of(pos: GridPos) -> u64 {
    ((pos.x + 0x8000_0000) * 0x1_0000_0000 + (pos.y + 0x8000_0000)) as u64
}

/// Different positions are filed under different numbers.
pub proof fn lemma_key_of_injective(p: GridPos, q: GridPos)
    ensures
        key_of(p) == key_of(q) <==> p == q,
{
}

fn key(pos: GridPos) -> (k: u64)
    ensures
        k == key_of(pos),
{
    let kx: u64 = (pos.x as i64 + 0x8000_0000i64) as u64;
    let ky: u64 = (pos.y as i64 + 0x8000_0000i64) as u64;
    kx * 0x1_0000_0000u64 + ky
}

/// The position one step from `pos` in direction `dir`.
pub open spec fn toward(pos: GridPos, dir: Dir) -> GridPos {
    pos.moved(dir.dx(), dir.dy())
}

pub(crate) fn neighbor(pos: GridPos, dir: Dir) -> (n: GridPos)
    requires
        pos.can_step(),
    ensures
        n == toward(pos, dir),
{
    match dir {
        Dir::North => GridPos { x: pos.x, y: pos.y + 1 },
        Dir::South => GridPos { x: pos.x, y: pos.y - 1 },
        Dir::East => GridPos { x: pos.x + 1, y: pos.y },
        Dir::West => GridPos { x: pos.x - 1, y: pos.y },
        Dir::Nowhere => pos,
    }
}

/// A cell that the search cannot pass: one with a kind other than those
/// the router connects to.
pub open spec fn blocking(cell: Flag) -> bool {
    cell.has(0x0000_03f8u32)
}

/// A cell that the router connects to.
pub open spec fn connectable(cell: Flag) -> bool {
    cell.has(0x0000_0007u32)
}

/// The entry for the position next to `origin` in direction `dir`, reached
/// from `origin`, where that position lies in the grid.
pub open spec fn seed<const W: usize, const H: usize>(origin: GridPos, dir: Dir) -> Seq<
    SearchPath,
> {
    if GridMap::<W, H>::contains(toward(origin, dir)) {
        seq![SearchPath { pos: toward(origin, dir), prev: origin }]
    } else {
        Seq::empty()
    }
}

/// The entries for the positions around `origin` that lie in the grid:
/// north, south, east, west, each reached from `origin`.
pub open spec fn ring<const W: usize, const H: usize>(origin: GridPos) -> Seq<SearchPath> {
    seed::<W, H>(origin, Dir::North) + seed::<W, H>(origin, Dir::South) + seed::<W, H>(
        origin,
        Dir::East,
    ) + seed::<W, H>(origin, Dir::West)
}

/// What one direction adds to the starting queue: where the position next
/// to `origin` lies in the grid, an entry for it and then a whole ring;
/// else nothing. Every entry is reached from `origin`, so that the trail
/// of any position found later leads back to the origin cell by cell.
pub open spec fn seeded<const W: usize, const H: usize>(origin: GridPos, dir: Dir) -> Seq<
    SearchPath,
> {
    if GridMap::<W, H>::contains(toward(origin, dir)) {
        seed::<W, H>(origin, dir) + ring::<W, H>(origin)
    } else {
        Seq::empty()
    }
}

/// The starting queue of a search from `origin`.
pub open spec fn seeds<const W: usize, const H: usize>(origin: GridPos) -> Seq<SearchPath> {
    seeded::<W, H>(origin, Dir::North) + seeded::<W, H>(origin, Dir::South) + seeded::<W, H>(
        origin,
        Dir::East,
    ) + seeded::<W, H>(origin, Dir::West)
}

/// What one direction adds to the queue when `from` is opened: an entry for
/// the position next to it where that lies in the grid and is not yet
/// visited.
pub open spec fn fresh<const W: usize, const H: usize>(
    trail: Map<GridPos, GridPos>,
    from: GridPos,
    dir: Dir,
) -> Seq<SearchPath> {
    if GridMap::<W, H>::contains(toward(from, dir)) && !trail.contains_key(toward(from, dir)) {
        seq![SearchPath { pos: toward(from, dir), prev: from }]
    } else {
        Seq::empty()
    }
}

/// What opening `from` adds to the queue: north, south, east, west; in the
/// reverse variant west, east, south, north.
pub open spec fn frontier<const W: usize, const H: usize>(
    trail: Map<GridPos, GridPos>,
    from: GridPos,
    reverse: bool,
) -> Seq<SearchPath> {
    if reverse {
        fresh::<W, H>(trail, from, Dir::West) + fresh::<W, H>(trail, from, Dir::East) + fresh::<
            W,
            H,
        >(trail, from, Dir::South) + fresh::<W, H>(trail, from, Dir::North)
    } else {
        fresh::<W, H>(trail, from, Dir::North) + fresh::<W, H>(trail, from, Dir::South) + fresh::<
            W,
            H,
        >(trail, from, Dir::East) + fresh::<W, H>(trail, from, Dir::West)
    }
}

/// What a search has visited, what it has queued, and the state that its
/// last step gave.
pub struct Progress {
    pub trail: Map<GridPos, GridPos>,
    pub pending: Seq<SearchPath>,
    pub state: MultivacState,
}

/// One step of the search. With an empty queue it stops. Else it takes the
/// front entry. One that is visited already is dropped. Any other is marked
/// visited. A marked one outside the grid or on a blocking cell ends the
/// step; one on a cell that the router connects to is found; any other is
/// opened, and what lies around it is queued.
pub open spec fn search_step<const W: usize, const H: usize>(
    trail: Map<GridPos, GridPos>,
    pending: Seq<SearchPath>,
    map: GridMap<W, H>,
    reverse: bool,
) -> Progress {
    if pending.len() == 0 {
        Progress { trail, pending, state: MultivacState::Stop }
    } else {
        let candidate = pending[0];
        let rest = pending.subrange(1, pending.len() as int);
        let marked = trail.insert(candidate.pos, candidate.prev);
        let cell = map.at(candidate.pos.x as int, candidate.pos.y as int);
        if trail.contains_key(candidate.pos) {
            Progress { trail, pending: rest, state: MultivacState::Search(None) }
        } else if !GridMap::<W, H>::contains(candidate.pos) || blocking(cell) {
            Progress { trail: marked, pending: rest, state: MultivacState::Search(None) }
        } else if connectable(cell) {
            Progress { trail: marked, pending: rest, state: MultivacState::InitRoute(candidate.pos) }
        } else {
            Progress {
                trail: marked,
                pending: rest + frontier::<W, H>(marked, candidate.pos, reverse),
                state: MultivacState::Search(Some(candidate.pos)),
            }
        }
    }
}

/// The router's search: where it started, what it has visited and what is
/// still to be looked at.
#[derive(Debug)]
pub struct Multivac {
    /// Origin of the network.
    pub origin: GridPos,
    /// What was visited, each position filed under its number.
    visited: HashMap<u64, GridPos>,
    pub queue: VecDeque<SearchPath>,
}

impl Multivac {
    /// The visited positions, each with the position it was reached from.
    pub closed spec fn trail(&self) -> Map<GridPos, GridPos> {
        Map::new(
            |p: GridPos| self.visited@.contains_key(key_of(p)),
            |p: GridPos| self.visited@[key_of(p)],
        )
    }

    /// The queue, front first.
    pub closed spec fn pending(&self) -> Seq<SearchPath> {
        self.queue@
    }

    /// Where the search starts.
    pub closed spec fn start(&self) -> GridPos {
        self.origin
    }

    /// The origin has room for a step in every direction.
    pub open spec fn wf(&self) -> bool {
        self.start().can_step()
    }

    /// A router at `origin` that has visited nothing and has nothing queued.
    pub fn new(origin: GridPos) -> (multivac: Multivac)
        requires
            origin.can_step(),
        ensures
            multivac.wf(),
            multivac.start() == origin,
            multivac.trail() == Map::<GridPos, GridPos>::empty(),
            multivac.pending() == Seq::<SearchPath>::empty(),
    {
        let multivac = Multivac { origin, visited: HashMap::new(), queue: VecDeque::new() };
        assert(multivac.trail() =~= Map::<GridPos, GridPos>::empty());
        multivac
    }

    /// The position that `pos` was reached from, if it has been visited.
    pub fn reached_from(&self, pos: GridPos) -> (prev: Option<GridPos>)
        ensures
            prev == if self.trail().contains_key(pos) {
                Some(self.trail()[pos])
            } else {
                None
            },
    {
        let k = key(pos);
        match self.visited.get(&k) {
            Some(p) => Some(*p),
            None => None,
        }
    }

    /// How many entries are queued.
    pub fn queued(&self) -> (n: usize)
        ensures
            n == self.pending().len(),
    {
        self.queue.len()
    }

    /// Whether `pos` has been visited.
    pub fn has_visited(&self, pos: GridPos) -> (seen: bool)
        ensures
            seen == self.trail().contains_key(pos),
    {
        let k = key(pos);
        self.visited.contains_key(&k)
    }

    /// Forgets what was visited and queued, marks the origin visited, and
    /// queues the starting entries: for each direction in which the position
    /// next to the origin lies in the grid, that position and then, once
    /// more, every position around the origin that lies in the grid.
    pub fn init<const W: usize, const H: usize>(&mut self, map: &GridMap<W, H>) -> (state:
        MultivacState)
        requires
            old(self).wf(),
            map.wf(),
        ensures
            final(self).wf(),
            final(self).start() == old(self).start(),
            final(self).trail() == Map::<GridPos, GridPos>::empty().insert(
                old(self).start(),
                GridPos { x: 0, y: 0 },
            ),
            final(self).pending() == seeds::<W, H>(old(self).start()),
            state == MultivacState::Search(None),
    {
        self.visited.clear();
        self.queue.clear();
        assert(self.trail() =~= Map::<GridPos, GridPos>::empty());
        self.visit(self.origin, GridPos { x: 0, y: 0 });
        self.seed_round(map, Dir::North);
        self.seed_round(map, Dir::South);
        self.seed_round(map, Dir::East);
        self.seed_round(map, Dir::West);
        assert(self.pending() =~= seeds::<W, H>(self.start()));
        MultivacState::Search(None)
    }

    /// One step of the search, looking north, south, east, west.
    pub fn search<const W: usize, const H: usize>(&mut self, map: &GridMap<W, H>) -> (state:
        MultivacState)
        requires
            old(self).wf(),
            map.wf(),
        ensures
            final(self).wf(),
            final(self).start() == old(self).start(),
            final(self).trail() == search_step(old(self).trail(), old(self).pending(), *map, false).trail,
            final(self).pending() == search_step(
                old(self).trail(),
                old(self).pending(),
                *map,
                false,
            ).pending,
            state == search_step(old(self).trail(), old(self).pending(), *map, false).state,
    {
        self.advance(map, false)
    }

    /// One step of the search, looking west, east, south, north.
    pub fn search_reverse<const W: usize, const H: usize>(&mut self, map: &GridMap<W, H>) -> (state:
        MultivacState)
        requires
            old(self).wf(),
            map.wf(),
        ensures
            final(self).wf(),
            final(self).start() == old(self).start(),
            final(self).trail() == search_step(old(self).trail(), old(self).pending(), *map, true).trail,
            final(self).pending() == search_step(
                old(self).trail(),
                old(self).pending(),
                *map,
                true,
            ).pending,
            state == search_step(old(self).trail(), old(self).pending(), *map, true).state,
    {
        self.advance(map, true)
    }

    fn advance<const W: usize, const H: usize>(&mut self, map: &GridMap<W, H>, reverse: bool) -> (state:
        MultivacState)
        requires
            old(self).wf(),
            map.wf(),
        ensures
            final(self).wf(),
            final(self).start() == old(self).start(),
            final(self).trail() == search_step(old(self).trail(), old(self).pending(), *map, reverse).trail,
            final(self).pending() == search_step(
                old(self).trail(),
                old(self).pending(),
                *map,
                reverse,
            ).pending,
            state == search_step(old(self).trail(), old(self).pending(), *map, reverse).state,
    {
        let candidate = match self.queue.pop_front() {
            Some(v) => v,
            None => {
                return MultivacState::Stop;
            },
        };
        if self.has_visited(candidate.pos) {
            return MultivacState::Search(None);
        }
        self.visit(candidate.pos, candidate.prev);
        let flags = match map.get_ivec2(candidate.pos) {
            Some(f) => f,
            None => {
                return MultivacState::Search(None);
            },
        };
        assert(0x0000_03ffu32 & !0x0000_0007u32 == 0x0000_03f8u32) by (bit_vector);
        if flags.intersects(Flag::KIND_MASK & !Flag::MULTIVAC_FOOD) {
            return MultivacState::Search(None);
        }
        if flags.intersects(Flag::MULTIVAC_FOOD) {
            return MultivacState::InitRoute(candidate.pos);
        }
        let ghost before = self.pending();
        let ghost marked = self.trail();
        if reverse {
            self.enqueue(map, candidate.pos, Dir::West);
            self.enqueue(map, candidate.pos, Dir::East);
            self.enqueue(map, candidate.pos, Dir::South);
            self.enqueue(map, candidate.pos, Dir::North);
        } else {
            self.enqueue(map, candidate.pos, Dir::North);
            self.enqueue(map, candidate.pos, Dir::South);
            self.enqueue(map, candidate.pos, Dir::East);
            self.enqueue(map, candidate.pos, Dir::West);
        }
        assert(self.pending() =~= before + frontier::<W, H>(marked, candidate.pos, reverse));
        MultivacState::Search(Some(candidate.pos))
    }

    fn seed_round<const W: usize, const H: usize>(&mut self, map: &GridMap<W, H>, dir: Dir)
        requires
            old(self).wf(),
            map.wf(),
        ensures
            final(self).wf(),
            final(self).start() == old(self).start(),
            final(self).trail() == old(self).trail(),
            final(self).pending() == old(self).pending() + seeded::<W, H>(old(self).start(), dir),
    {
        let n = neighbor(self.origin, dir);
        if map.get_ivec2(n).is_some() {
            self.seed_one(map, dir);
            self.seed_one(map, Dir::North);
            self.seed_one(map, Dir::South);
            self.seed_one(map, Dir::East);
            self.seed_one(map, Dir::West);
        }
        assert(self.pending() =~= old(self).pending() + seeded::<W, H>(old(self).start(), dir));
    }

    fn seed_one<const W: usize, const H: usize>(&mut self, map: &GridMap<W, H>, dir: Dir)
        requires
            old(self).wf(),
            map.wf(),
        ensures
            final(self).wf(),
            final(self).start() == old(self).start(),
            final(self).trail() == old(self).trail(),
            final(self).pending() == old(self).pending() + seed::<W, H>(old(self).start(), dir),
    {
        let origin = self.origin;
        let n = neighbor(origin, dir);
        if map.get_ivec2(n).is_some() {
            self.queue.push_back(SearchPath::new(n, origin));
        }
        assert(self.pending() =~= old(self).pending() + seed::<W, H>(origin, dir));
    }

    fn enqueue<const W: usize, const H: usize>(&mut self, map: &GridMap<W, H>, from: GridPos, dir: Dir)
        requires
            map.wf(),
            GridMap::<W, H>::contains(from),
        ensures
            final(self).start() == old(self).start(),
            final(self).trail() == old(self).trail(),
            final(self).pending() == old(self).pending() + fresh::<W, H>(old(self).trail(), from, dir),
    {
        let n = neighbor(from, dir);
        if map.get_ivec2(n).is_some() && !self.has_visited(n) {
            self.queue.push_back(SearchPath::new(n, from));
        }
        assert(self.pending() =~= old(self).pending() + fresh::<W, H>(old(self).trail(), from, dir));
    }

    fn visit(&mut self, pos: GridPos, prev: GridPos)
        ensures
            final(self).trail() == old(self).trail().insert(pos, prev),
            final(self).pending() == old(self).pending(),
            final(self).start() == old(self).start(),
    {
        let k = key(pos);
        self.visited.insert(k, prev);
        proof {
            assert forall|p: GridPos| key_of(p) == key_of(pos) implies p == pos by {
                lemma_key_of_injective(p, pos);
            }
            assert(final(self).trail() =~= old(self).trail().insert(pos, prev));
        }
    }
}

} // verus!
