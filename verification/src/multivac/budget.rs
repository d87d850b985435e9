//! Why the search ends: every step uses up some of a finite amount of work.

use vstd::prelude::*;
use vstd::arithmetic::div_mod::{
    lemma_fundamental_div_mod,
    lemma_fundamental_div_mod_converse,
};
use crate::multivac::search::{frontier, search_step, Progress};
use crate::multivac::SearchPath;
use crate::world::map::{GridMap, GridPos};

verus! {

/// The position of the cell with number `i`, counting row by row in a grid
/// that is `w` wide.
pub open spec fn cell_pos(i: int, w: int) -> GridPos {
    GridPos { x: (i % w) as i32, y: (i / w) as i32 }
}

/// How many of the first `n` cells are not yet visited.
pub open spec fn unvisited<const W: usize, const H: usize>(
    trail: Map<GridPos, GridPos>,
    n: nat,
) -> nat
    decreases n,
{
    if n == 0 {
        0
    } else {
        let p = cell_pos(n - 1, W as int);
        unvisited::<W, H>(trail, (n - 1) as nat) + if GridMap::<W, H>::contains(p)
            && !trail.contains_key(p) {
            1nat
        } else {
            0nat
        }
    }
}

/// The work that a search still has before it: one unit for each queued
/// entry and four for each cell of the grid that it has not visited.
pub open spec fn work_left<const W: usize, const H: usize>(
    trail: Map<GridPos, GridPos>,
    pending: Seq<SearchPath>,
) -> nat {
    pending.len() + 4 * unvisited::<W, H>(trail, (W * H) as nat)
}

/// Among the first `n` cells at most `n` are unvisited.
pub proof fn lemma_unvisited_bound<const W: usize, const H: usize>(
    trail: Map<GridPos, GridPos>,
    n: nat,
)
    ensures
        unvisited::<W, H>(trail, n) <= n,
    decreases n,
{
    if n > 0 {
        lemma_unvisited_bound::<W, H>(trail, (n - 1) as nat);
    }
}

/// The cell number `i` lies at `p` exactly if `i` is `p`'s own number.
proof fn lemma_cell_pos_is<const W: usize, const H: usize>(i: int, p: GridPos)
    requires
        GridMap::<W, H>::fits(),
        GridMap::<W, H>::contains(p),
        0 <= i < W * H,
    ensures
        cell_pos(i, W as int) == p <==> i == p.y * W + p.x,
{
    let w = W as int;
    lemma_fundamental_div_mod(i, w);
    assert(0 <= i % w < w) by (nonlinear_arith)
        requires
            w > 0,
    ;
    assert(0 <= i / w < H) by (nonlinear_arith)
        requires
            w > 0,
            0 <= i < w * H,
    ;
    if i == p.y * w + p.x {
        lemma_fundamental_div_mod_converse(i, w, p.y as int, p.x as int);
    }
    if cell_pos(i, w) == p {
        assert(i == w * (i / w) + i % w);
        assert(w * (i / w) == (i / w) * w) by (nonlinear_arith);
    }
}

/// Marking a position visited that was not takes one cell off the count
/// where the position is a cell among the first `n`, and none
/// otherwise.
pub proof fn lemma_unvisited_insert<const W: usize, const H: usize>(
    trail: Map<GridPos, GridPos>,
    p: GridPos,
    prev: GridPos,
    n: nat,
)
    requires
        GridMap::<W, H>::fits(),
        !trail.contains_key(p),
        n <= W * H,
    ensures
        unvisited::<W, H>(trail.insert(p, prev), n) + (if GridMap::<W, H>::contains(p) && p.y * W
            + p.x < n {
            1nat
        } else {
            0nat
        }) == unvisited::<W, H>(trail, n),
    decreases n,
{
    if n > 0 {
        lemma_unvisited_insert::<W, H>(trail, p, prev, (n - 1) as nat);
        let q = cell_pos(n - 1, W as int);
        if GridMap::<W, H>::contains(p) {
            lemma_cell_pos_is::<W, H>(n - 1, p);
        }
    }
}

/// A step of the search on a queue that is not empty leaves less work than
/// it found. The work is at most the length of the queue and four times the
/// area of the grid.
pub proof fn lemma_search_step_decreases<const W: usize, const H: usize>(
    trail: Map<GridPos, GridPos>,
    pending: Seq<SearchPath>,
    map: GridMap<W, H>,
    reverse: bool,
)
    requires
        map.wf(),
        pending.len() > 0,
    ensures
        work_left::<W, H>(
            search_step(trail, pending, map, reverse).trail,
            search_step(trail, pending, map, reverse).pending,
        ) < work_left::<W, H>(trail, pending),
        work_left::<W, H>(trail, pending) <= pending.len() + 4 * (W * H),
{
    let area = (W * H) as nat;
    let candidate = pending[0];
    let next = search_step(trail, pending, map, reverse);
    lemma_unvisited_bound::<W, H>(trail, area);
    if !trail.contains_key(candidate.pos) {
        lemma_unvisited_insert::<W, H>(trail, candidate.pos, candidate.prev, area);
        let marked = trail.insert(candidate.pos, candidate.prev);
        if GridMap::<W, H>::contains(candidate.pos) {
            crate::world::map::lemma_cell_index(
                candidate.pos.x as int,
                candidate.pos.y as int,
                W as int,
                H as int,
            );
            assert(frontier::<W, H>(marked, candidate.pos, reverse).len() <= 4);
        }
    }
}

/// The search after the steps of `schedule`, one entry for each step: `true`
/// for a step in reverse order.
pub open spec fn search_run<const W: usize, const H: usize>(
    trail: Map<GridPos, GridPos>,
    pending: Seq<SearchPath>,
    map: GridMap<W, H>,
    schedule: Seq<bool>,
) -> Progress
    decreases schedule.len(),
{
    if schedule.len() == 0 {
        Progress { trail, pending, state: crate::multivac::MultivacState::Search(None) }
    } else {
        let before = search_run(trail, pending, map, schedule.drop_last());
        search_step(before.trail, before.pending, map, schedule.last())
    }
}

/// Steps of the search, forward or reverse in any order, empty the queue:
/// after as many steps as there was work at the start, at the latest,
/// nothing is queued. That is at most the length of the queue at the start
/// and four times the area of the grid.
pub proof fn lemma_search_drains<const W: usize, const H: usize>(
    trail: Map<GridPos, GridPos>,
    pending: Seq<SearchPath>,
    map: GridMap<W, H>,
    schedule: Seq<bool>,
)
    requires
        map.wf(),
    ensures
        search_run(trail, pending, map, schedule).pending.len() == 0 || work_left::<W, H>(
            search_run(trail, pending, map, schedule).trail,
            search_run(trail, pending, map, schedule).pending,
        ) + schedule.len() <= work_left::<W, H>(trail, pending),
        schedule.len() >= work_left::<W, H>(trail, pending) ==> search_run(
            trail,
            pending,
            map,
            schedule,
        ).pending.len() == 0,
        work_left::<W, H>(trail, pending) <= pending.len() + 4 * (W * H),
    decreases schedule.len(),
{
    lemma_unvisited_bound::<W, H>(trail, (W * H) as nat);
    if schedule.len() > 0 {
        lemma_search_drains(trail, pending, map, schedule.drop_last());
        let before = search_run(trail, pending, map, schedule.drop_last());
        if before.pending.len() > 0 {
            lemma_search_step_decreases(before.trail, before.pending, map, schedule.last());
        }
    }
}

} // verus!
