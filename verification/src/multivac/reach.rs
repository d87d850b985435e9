//! What the search reaches: every cell that a way of open cells leads to
//! from the origin, and with it whatever the router can connect to there.

use vstd::prelude::*;
use crate::multivac::budget::{lemma_search_drains, search_run, work_left};
use crate::multivac::search::{
    blocking,
    connectable,
    fresh,
    frontier,
    search_step,
    seed,
    seeded,
    seeds,
    toward,
};
use crate::multivac::{Dir, MultivacState, SearchPath};
use crate::world::map::{GridMap, GridPos};

verus! {

/// A cell that the search passes through: one of the grid that neither
/// blocks nor is something to connect to.
pub open spec fn open_cell<const W: usize, const H: usize>(map: GridMap<W, H>, p: GridPos) -> bool {
    &&& GridMap::<W, H>::contains(p)
    &&& !blocking(map.at(p.x as int, p.y as int))
    &&& !connectable(map.at(p.x as int, p.y as int))
}

/// A cell that the search is after: one of the grid that does not block
/// and is something to connect to.
pub open spec fn goal<const W: usize, const H: usize>(map: GridMap<W, H>, p: GridPos) -> bool {
    &&& GridMap::<W, H>::contains(p)
    &&& !blocking(map.at(p.x as int, p.y as int))
    &&& connectable(map.at(p.x as int, p.y as int))
}

/// Whether `p` has an entry in the queue.
pub open spec fn is_queued(pending: Seq<SearchPath>, p: GridPos) -> bool {
    exists|i: int| 0 <= i < pending.len() && (#[trigger] pending[i]).pos == p
}

/// Whether `q` is one step north, south, east or west of `p`.
pub open spec fn next_to(p: GridPos, q: GridPos) -> bool {
    q == toward(p, Dir::North) || q == toward(p, Dir::South) || q == toward(p, Dir::East) || q
        == toward(p, Dir::West)
}

/// Whether the search has `n` in hand: a position of the grid is visited
/// or queued.
pub open spec fn in_hand<const W: usize, const H: usize>(
    trail: Map<GridPos, GridPos>,
    pending: Seq<SearchPath>,
    n: GridPos,
) -> bool {
    !GridMap::<W, H>::contains(n) || trail.contains_key(n) || is_queued(pending, n)
}

/// Whether the search has in hand all four positions around `c`.
pub open spec fn around<const W: usize, const H: usize>(
    trail: Map<GridPos, GridPos>,
    pending: Seq<SearchPath>,
    c: GridPos,
) -> bool {
    &&& in_hand::<W, H>(trail, pending, toward(c, Dir::North))
    &&& in_hand::<W, H>(trail, pending, toward(c, Dir::South))
    &&& in_hand::<W, H>(trail, pending, toward(c, Dir::East))
    &&& in_hand::<W, H>(trail, pending, toward(c, Dir::West))
}

/// Whether the search has lost nothing: it has in hand what lies around
/// the origin and around every open cell that it has visited.
pub open spec fn covered<const W: usize, const H: usize>(
    origin: GridPos,
    trail: Map<GridPos, GridPos>,
    pending: Seq<SearchPath>,
    map: GridMap<W, H>,
) -> bool {
    &&& around::<W, H>(trail, pending, origin)
    &&& forall|c: GridPos|
        trail.contains_key(c) && open_cell(map, c) ==> #[trigger] around::<W, H>(trail, pending, c)
}

/// A way from the origin: each position one step from the one before, all
/// between the origin and the last open cells, the last in the grid.
pub open spec fn way<const W: usize, const H: usize>(
    map: GridMap<W, H>,
    origin: GridPos,
    path: Seq<GridPos>,
) -> bool {
    &&& path.len() >= 1
    &&& path[0] == origin
    &&& forall|i: int| 0 <= i < path.len() - 1 ==> next_to(path[i], #[trigger] path[i + 1])
    &&& forall|i: int| 0 < i < path.len() - 1 ==> open_cell(map, #[trigger] path[i])
    &&& GridMap::<W, H>::contains(path.last())
}

proof fn lemma_queued_in_parts(a: Seq<SearchPath>, b: Seq<SearchPath>, p: GridPos)
    ensures
        is_queued(a + b, p) <==> is_queued(a, p) || is_queued(b, p),
{
    if is_queued(a, p) {
        let i = choose|i: int| 0 <= i < a.len() && (#[trigger] a[i]).pos == p;
        assert((a + b)[i].pos == p);
    }
    if is_queued(b, p) {
        let i = choose|i: int| 0 <= i < b.len() && (#[trigger] b[i]).pos == p;
        assert((a + b)[a.len() + i].pos == p);
    }
    if is_queued(a + b, p) {
        let i = choose|i: int| 0 <= i < (a + b).len() && (#[trigger] (a + b)[i]).pos == p;
        if i < a.len() {
            assert(a[i].pos == p);
        } else {
            assert(b[i - a.len()].pos == p);
        }
    }
}

/// A step of the search keeps in hand what the search had in hand.
proof fn lemma_in_hand_kept<const W: usize, const H: usize>(
    trail: Map<GridPos, GridPos>,
    pending: Seq<SearchPath>,
    map: GridMap<W, H>,
    reverse: bool,
    n: GridPos,
)
    requires
        pending.len() > 0,
        in_hand::<W, H>(trail, pending, n),
    ensures
        in_hand::<W, H>(
            search_step(trail, pending, map, reverse).trail,
            search_step(trail, pending, map, reverse).pending,
            n,
        ),
{
    let next = search_step(trail, pending, map, reverse);
    let rest = pending.subrange(1, pending.len() as int);
    if GridMap::<W, H>::contains(n) && !trail.contains_key(n) {
        let i = choose|i: int| 0 <= i < pending.len() && (#[trigger] pending[i]).pos == n;
        if i == 0 {
            assert(next.trail.contains_key(n));
        } else {
            assert(rest[i - 1].pos == n);
            assert(is_queued(rest, n));
            lemma_queued_in_parts(rest, frontier::<W, H>(next.trail, pending[0].pos, reverse), n);
        }
    }
}

/// What lies around a cell that the search opens is in hand afterwards.
proof fn lemma_opened_around<const W: usize, const H: usize>(
    marked: Map<GridPos, GridPos>,
    rest: Seq<SearchPath>,
    from: GridPos,
    reverse: bool,
)
    ensures
        around::<W, H>(marked, rest + frontier::<W, H>(marked, from, reverse), from),
{
    let front = frontier::<W, H>(marked, from, reverse);
    let n = fresh::<W, H>(marked, from, Dir::North);
    let s = fresh::<W, H>(marked, from, Dir::South);
    let e = fresh::<W, H>(marked, from, Dir::East);
    let w = fresh::<W, H>(marked, from, Dir::West);
    lemma_queued_in_parts(rest, front, toward(from, Dir::North));
    lemma_queued_in_parts(rest, front, toward(from, Dir::South));
    lemma_queued_in_parts(rest, front, toward(from, Dir::East));
    lemma_queued_in_parts(rest, front, toward(from, Dir::West));
    if reverse {
        lemma_queued_in_parts(w + e + s, n, toward(from, Dir::North));
        lemma_queued_in_parts(w + e, s, toward(from, Dir::South));
        lemma_queued_in_parts(w + e + s, n, toward(from, Dir::South));
        lemma_queued_in_parts(w, e, toward(from, Dir::East));
        lemma_queued_in_parts(w + e, s, toward(from, Dir::East));
        lemma_queued_in_parts(w + e + s, n, toward(from, Dir::East));
        lemma_queued_in_parts(w, e, toward(from, Dir::West));
        lemma_queued_in_parts(w + e, s, toward(from, Dir::West));
        lemma_queued_in_parts(w + e + s, n, toward(from, Dir::West));
    } else {
        lemma_queued_in_parts(n, s, toward(from, Dir::North));
        lemma_queued_in_parts(n + s, e, toward(from, Dir::North));
        lemma_queued_in_parts(n + s + e, w, toward(from, Dir::North));
        lemma_queued_in_parts(n, s, toward(from, Dir::South));
        lemma_queued_in_parts(n + s, e, toward(from, Dir::South));
        lemma_queued_in_parts(n + s + e, w, toward(from, Dir::South));
        lemma_queued_in_parts(n + s, e, toward(from, Dir::East));
        lemma_queued_in_parts(n + s + e, w, toward(from, Dir::East));
        lemma_queued_in_parts(n + s + e, w, toward(from, Dir::West));
    }
    if n.len() > 0 {
        assert(n[0].pos == toward(from, Dir::North));
    }
    if s.len() > 0 {
        assert(s[0].pos == toward(from, Dir::South));
    }
    if e.len() > 0 {
        assert(e[0].pos == toward(from, Dir::East));
    }
    if w.len() > 0 {
        assert(w[0].pos == toward(from, Dir::West));
    }
}

/// A step of the search loses nothing: a search that has in hand what lies
/// around the origin and around every open cell it visited still has after
/// the step.
pub proof fn lemma_step_keeps_covered<const W: usize, const H: usize>(
    origin: GridPos,
    trail: Map<GridPos, GridPos>,
    pending: Seq<SearchPath>,
    map: GridMap<W, H>,
    reverse: bool,
)
    requires
        covered(origin, trail, pending, map),
    ensures
        covered(
            origin,
            search_step(trail, pending, map, reverse).trail,
            search_step(trail, pending, map, reverse).pending,
            map,
        ),
{
    if pending.len() > 0 {
        let next = search_step(trail, pending, map, reverse);
        let candidate = pending[0];
        let rest = pending.subrange(1, pending.len() as int);
        lemma_in_hand_kept(trail, pending, map, reverse, toward(origin, Dir::North));
        lemma_in_hand_kept(trail, pending, map, reverse, toward(origin, Dir::South));
        lemma_in_hand_kept(trail, pending, map, reverse, toward(origin, Dir::East));
        lemma_in_hand_kept(trail, pending, map, reverse, toward(origin, Dir::West));
        assert forall|c: GridPos| next.trail.contains_key(c) && open_cell(map, c) implies #[trigger] around::<
            W,
            H,
        >(next.trail, next.pending, c) by {
            if trail.contains_key(c) {
                assert(around::<W, H>(trail, pending, c));
                lemma_in_hand_kept(trail, pending, map, reverse, toward(c, Dir::North));
                lemma_in_hand_kept(trail, pending, map, reverse, toward(c, Dir::South));
                lemma_in_hand_kept(trail, pending, map, reverse, toward(c, Dir::East));
                lemma_in_hand_kept(trail, pending, map, reverse, toward(c, Dir::West));
            } else {
                assert(c == candidate.pos);
                lemma_opened_around::<W, H>(next.trail, rest, c, reverse);
            }
        }
    }
}

/// A fresh search has lost nothing: all that lies around the origin in the
/// grid is queued.
pub proof fn lemma_init_covered<const W: usize, const H: usize>(origin: GridPos, map: GridMap<W, H>)
    ensures
        covered(
            origin,
            Map::<GridPos, GridPos>::empty().insert(origin, GridPos { x: 0, y: 0 }),
            seeds::<W, H>(origin),
            map,
        ),
{
    let trail = Map::<GridPos, GridPos>::empty().insert(origin, GridPos { x: 0, y: 0 });
    let queue = seeds::<W, H>(origin);
    if GridMap::<W, H>::contains(toward(origin, Dir::North)) {
        lemma_seeds_hold::<W, H>(origin, Dir::North);
    }
    if GridMap::<W, H>::contains(toward(origin, Dir::South)) {
        lemma_seeds_hold::<W, H>(origin, Dir::South);
    }
    if GridMap::<W, H>::contains(toward(origin, Dir::East)) {
        lemma_seeds_hold::<W, H>(origin, Dir::East);
    }
    if GridMap::<W, H>::contains(toward(origin, Dir::West)) {
        lemma_seeds_hold::<W, H>(origin, Dir::West);
    }
    assert(in_hand::<W, H>(trail, queue, toward(origin, Dir::North)));
    assert(in_hand::<W, H>(trail, queue, toward(origin, Dir::South)));
    assert(in_hand::<W, H>(trail, queue, toward(origin, Dir::East)));
    assert(in_hand::<W, H>(trail, queue, toward(origin, Dir::West)));
    assert forall|c: GridPos| trail.contains_key(c) && open_cell(map, c) implies #[trigger] around::<
        W,
        H,
    >(trail, queue, c) by {
        assert(c == origin);
    }
}

proof fn lemma_seeds_hold<const W: usize, const H: usize>(origin: GridPos, dir: Dir)
    requires
        dir != Dir::Nowhere,
        GridMap::<W, H>::contains(toward(origin, dir)),
    ensures
        is_queued(seeds::<W, H>(origin), toward(origin, dir)),
{
    let n = seeded::<W, H>(origin, Dir::North);
    let s = seeded::<W, H>(origin, Dir::South);
    let e = seeded::<W, H>(origin, Dir::East);
    let w = seeded::<W, H>(origin, Dir::West);
    let p = toward(origin, dir);
    lemma_queued_in_parts(n, s, p);
    lemma_queued_in_parts(n + s, e, p);
    lemma_queued_in_parts(n + s + e, w, p);
    let mine = seeded::<W, H>(origin, dir);
    assert(seed::<W, H>(origin, dir)[0].pos == p);
    assert(mine[0].pos == p);
    assert(is_queued(mine, p));
}

/// Steps of the search lose nothing, and forget nothing that was visited.
pub proof fn lemma_run_keeps_covered<const W: usize, const H: usize>(
    origin: GridPos,
    trail: Map<GridPos, GridPos>,
    pending: Seq<SearchPath>,
    map: GridMap<W, H>,
    schedule: Seq<bool>,
)
    requires
        covered(origin, trail, pending, map),
    ensures
        covered(
            origin,
            search_run(trail, pending, map, schedule).trail,
            search_run(trail, pending, map, schedule).pending,
            map,
        ),
        forall|p: GridPos|
            trail.contains_key(p) ==> #[trigger] search_run(
                trail,
                pending,
                map,
                schedule,
            ).trail.contains_key(p),
    decreases schedule.len(),
{
    if schedule.len() > 0 {
        lemma_run_keeps_covered(origin, trail, pending, map, schedule.drop_last());
        let before = search_run(trail, pending, map, schedule.drop_last());
        lemma_step_keeps_covered(origin, before.trail, before.pending, map, schedule.last());
    }
}

/// Once nothing is queued, a search that lost nothing has visited every
/// position on a way from the origin.
pub proof fn lemma_drained_reaches<const W: usize, const H: usize>(
    origin: GridPos,
    trail: Map<GridPos, GridPos>,
    pending: Seq<SearchPath>,
    map: GridMap<W, H>,
    path: Seq<GridPos>,
    k: int,
)
    requires
        covered(origin, trail, pending, map),
        pending.len() == 0,
        trail.contains_key(origin),
        way(map, origin, path),
        0 <= k < path.len(),
    ensures
        trail.contains_key(path[k]),
    decreases k,
{
    if k > 0 {
        lemma_drained_reaches(origin, trail, pending, map, path, k - 1);
        let from = path[k - 1];
        let to = path[k];
        assert(next_to(from, path[k - 1 + 1]));
        if k - 1 > 0 {
            assert(open_cell(map, path[k - 1]));
            assert(around::<W, H>(trail, pending, from));
        }
        if k < path.len() - 1 {
            assert(open_cell(map, path[k]));
        }
        assert(GridMap::<W, H>::contains(to));
        assert(in_hand::<W, H>(trail, pending, to));
    }
}

/// The state that a step gives names a found position only where that is
/// a cell to connect to, and a step that newly visits such a cell names it.
pub proof fn lemma_found_is_goal<const W: usize, const H: usize>(
    trail: Map<GridPos, GridPos>,
    pending: Seq<SearchPath>,
    map: GridMap<W, H>,
    reverse: bool,
    p: GridPos,
)
    ensures
        search_step(trail, pending, map, reverse).state == MultivacState::InitRoute(p) ==> goal(
            map,
            p,
        ),
        goal(map, p) && !trail.contains_key(p) && search_step(
            trail,
            pending,
            map,
            reverse,
        ).trail.contains_key(p) ==> search_step(trail, pending, map, reverse).state
            == MultivacState::InitRoute(p),
{
}

/// Whether the step number `j` of a run, counting from one, found `p`.
pub open spec fn found_at<const W: usize, const H: usize>(
    trail: Map<GridPos, GridPos>,
    pending: Seq<SearchPath>,
    map: GridMap<W, H>,
    schedule: Seq<bool>,
    j: int,
    p: GridPos,
) -> bool {
    search_run(trail, pending, map, schedule.take(j)).state == MultivacState::InitRoute(p)
}

/// A cell to connect to that a run has visited, and that was not visited
/// before the run, was found by one of its steps.
pub proof fn lemma_visited_goal_was_found<const W: usize, const H: usize>(
    trail: Map<GridPos, GridPos>,
    pending: Seq<SearchPath>,
    map: GridMap<W, H>,
    schedule: Seq<bool>,
    p: GridPos,
)
    requires
        goal(map, p),
        !trail.contains_key(p),
        search_run(trail, pending, map, schedule).trail.contains_key(p),
    ensures
        exists|j: int|
            1 <= j <= schedule.len() && #[trigger] found_at(trail, pending, map, schedule, j, p),
    decreases schedule.len(),
{
    if schedule.len() > 0 {
        let shorter = schedule.drop_last();
        let before = search_run(trail, pending, map, shorter);
        if before.trail.contains_key(p) {
            lemma_visited_goal_was_found(trail, pending, map, shorter, p);
            let j = choose|j: int|
                1 <= j <= shorter.len() && #[trigger] found_at(trail, pending, map, shorter, j, p);
            assert(shorter.take(j) =~= schedule.take(j));
            assert(found_at(trail, pending, map, schedule, j, p));
        } else {
            lemma_found_is_goal(before.trail, before.pending, map, schedule.last(), p);
            assert(schedule.take(schedule.len() as int) =~= schedule);
            assert(found_at(trail, pending, map, schedule, schedule.len() as int, p));
        }
    }
}

/// A fresh search finds what it can reach. Where a way of open cells leads
/// from the origin to a cell to connect to, a search that starts afresh and
/// is let run finds that cell, after no more steps than there was work at
/// the start; and whatever a step finds is a cell to connect to.
pub proof fn lemma_search_finds<const W: usize, const H: usize>(
    origin: GridPos,
    map: GridMap<W, H>,
    path: Seq<GridPos>,
    schedule: Seq<bool>,
)
    requires
        map.wf(),
        way(map, origin, path),
        goal(map, path.last()),
        path.last() != origin,
        schedule.len() >= work_left::<W, H>(
            Map::<GridPos, GridPos>::empty().insert(origin, GridPos { x: 0, y: 0 }),
            seeds::<W, H>(origin),
        ),
    ensures
        exists|j: int|
            1 <= j <= schedule.len() && #[trigger] found_at(
                Map::<GridPos, GridPos>::empty().insert(origin, GridPos { x: 0, y: 0 }),
                seeds::<W, H>(origin),
                map,
                schedule,
                j,
                path.last(),
            ),
{
    let trail = Map::<GridPos, GridPos>::empty().insert(origin, GridPos { x: 0, y: 0 });
    let queue = seeds::<W, H>(origin);
    let end = search_run(trail, queue, map, schedule);
    lemma_init_covered(origin, map);
    lemma_run_keeps_covered(origin, trail, queue, map, schedule);
    lemma_search_drains(trail, queue, map, schedule);
    assert(trail.contains_key(origin));
    assert(end.trail.contains_key(origin));
    lemma_drained_reaches(origin, end.trail, end.pending, map, path, path.len() - 1);
    lemma_visited_goal_was_found(trail, queue, map, schedule, path.last());
}

/// Whether every entry of `entries` is a step away from `from` and was
/// reached from it.
pub open spec fn steps_from(entries: Seq<SearchPath>, from: GridPos) -> bool {
    forall|i: int|
        0 <= i < entries.len() ==> (#[trigger] entries[i]).prev == from && next_to(
            from,
            entries[i].pos,
        )
}

/// Whether the trail holds together: the origin is visited, every other
/// visited position was reached from a visited position one step away, and
/// so was every queued one.
pub open spec fn linked(
    origin: GridPos,
    trail: Map<GridPos, GridPos>,
    pending: Seq<SearchPath>,
) -> bool {
    &&& trail.contains_key(origin)
    &&& forall|p: GridPos|
        #[trigger] trail.contains_key(p) && p != origin ==> next_to(trail[p], p)
            && trail.contains_key(trail[p])
    &&& forall|i: int|
        0 <= i < pending.len() ==> next_to((#[trigger] pending[i]).prev, pending[i].pos)
            && trail.contains_key(pending[i].prev)
}

proof fn lemma_steps_from_parts(a: Seq<SearchPath>, b: Seq<SearchPath>, from: GridPos)
    requires
        steps_from(a, from),
        steps_from(b, from),
    ensures
        steps_from(a + b, from),
{
    assert forall|i: int| 0 <= i < (a + b).len() implies (#[trigger] (a + b)[i]).prev == from
        && next_to(from, (a + b)[i].pos) by {
        if i < a.len() {
            assert((a + b)[i] == a[i]);
        } else {
            assert((a + b)[i] == b[i - a.len()]);
        }
    }
}

proof fn lemma_frontier_steps<const W: usize, const H: usize>(
    trail: Map<GridPos, GridPos>,
    from: GridPos,
    reverse: bool,
)
    ensures
        steps_from(frontier::<W, H>(trail, from, reverse), from),
{
    let n = fresh::<W, H>(trail, from, Dir::North);
    let s = fresh::<W, H>(trail, from, Dir::South);
    let e = fresh::<W, H>(trail, from, Dir::East);
    let w = fresh::<W, H>(trail, from, Dir::West);
    if reverse {
        lemma_steps_from_parts(w, e, from);
        lemma_steps_from_parts(w + e, s, from);
        lemma_steps_from_parts(w + e + s, n, from);
    } else {
        lemma_steps_from_parts(n, s, from);
        lemma_steps_from_parts(n + s, e, from);
        lemma_steps_from_parts(n + s + e, w, from);
    }
}

/// The trail of a fresh search holds together.
pub proof fn lemma_init_linked<const W: usize, const H: usize>(origin: GridPos)
    ensures
        linked(
            origin,
            Map::<GridPos, GridPos>::empty().insert(origin, GridPos { x: 0, y: 0 }),
            seeds::<W, H>(origin),
        ),
{
    let n = seeded::<W, H>(origin, Dir::North);
    let s = seeded::<W, H>(origin, Dir::South);
    let e = seeded::<W, H>(origin, Dir::East);
    let w = seeded::<W, H>(origin, Dir::West);
    lemma_seeded_steps::<W, H>(origin, Dir::North);
    lemma_seeded_steps::<W, H>(origin, Dir::South);
    lemma_seeded_steps::<W, H>(origin, Dir::East);
    lemma_seeded_steps::<W, H>(origin, Dir::West);
    lemma_steps_from_parts(n, s, origin);
    lemma_steps_from_parts(n + s, e, origin);
    lemma_steps_from_parts(n + s + e, w, origin);
}

proof fn lemma_seeded_steps<const W: usize, const H: usize>(origin: GridPos, dir: Dir)
    requires
        dir != Dir::Nowhere,
    ensures
        steps_from(seeded::<W, H>(origin, dir), origin),
{
    let n = seed::<W, H>(origin, Dir::North);
    let s = seed::<W, H>(origin, Dir::South);
    let e = seed::<W, H>(origin, Dir::East);
    let w = seed::<W, H>(origin, Dir::West);
    lemma_steps_from_parts(n, s, origin);
    lemma_steps_from_parts(n + s, e, origin);
    lemma_steps_from_parts(n + s + e, w, origin);
    lemma_steps_from_parts(seed::<W, H>(origin, dir), n + s + e + w, origin);
}

/// A step of the search keeps the trail together: whatever it marks
/// visited was reached from a visited position one step away.
pub proof fn lemma_step_keeps_linked<const W: usize, const H: usize>(
    origin: GridPos,
    trail: Map<GridPos, GridPos>,
    pending: Seq<SearchPath>,
    map: GridMap<W, H>,
    reverse: bool,
)
    requires
        linked(origin, trail, pending),
    ensures
        linked(
            origin,
            search_step(trail, pending, map, reverse).trail,
            search_step(trail, pending, map, reverse).pending,
        ),
{
    if pending.len() > 0 {
        let next = search_step(trail, pending, map, reverse);
        let candidate = pending[0];
        let rest = pending.subrange(1, pending.len() as int);
        let front = frontier::<W, H>(next.trail, candidate.pos, reverse);
        lemma_frontier_steps::<W, H>(next.trail, candidate.pos, reverse);
        assert forall|i: int| 0 <= i < next.pending.len() implies next_to(
            (#[trigger] next.pending[i]).prev,
            next.pending[i].pos,
        ) && next.trail.contains_key(next.pending[i].prev) by {
            if i < rest.len() {
                assert(next.pending[i] == pending[i + 1]);
            } else {
                assert(next.pending[i] == front[i - rest.len()]);
            }
        }
        assert forall|p: GridPos| #[trigger]
            next.trail.contains_key(p) && p != origin implies next_to(next.trail[p], p)
            && next.trail.contains_key(next.trail[p]) by {
            if trail.contains_key(p) {
                assert(trail.contains_key(trail[p]));
            }
        }
    }
}

/// Steps of the search keep the trail together.
pub proof fn lemma_run_keeps_linked<const W: usize, const H: usize>(
    origin: GridPos,
    trail: Map<GridPos, GridPos>,
    pending: Seq<SearchPath>,
    map: GridMap<W, H>,
    schedule: Seq<bool>,
)
    requires
        linked(origin, trail, pending),
    ensures
        linked(
            origin,
            search_run(trail, pending, map, schedule).trail,
            search_run(trail, pending, map, schedule).pending,
        ),
    decreases schedule.len(),
{
    if schedule.len() > 0 {
        lemma_run_keeps_linked(origin, trail, pending, map, schedule.drop_last());
        let before = search_run(trail, pending, map, schedule.drop_last());
        lemma_step_keeps_linked(origin, before.trail, before.pending, map, schedule.last());
    }
}

} // verus!
