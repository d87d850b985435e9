//! The grid: a fixed number of columns and rows of cells.

use vstd::prelude::*;
use crate::world::flag::Flag;

verus! {

/// A position in whole cells. It may lie outside the grid.
#[derive(Clone, Copy, Debug, PartialEq, Eq, Hash, Structural)]
pub struct GridPos {
    pub x: i32,
    pub y: i32,
}

impl GridPos {
    pub fn new(x: i32, y: i32) -> (pos: GridPos)
        ensures
            pos == (GridPos { x, y }),
    {
        GridPos { x, y }
    }

    /// The same value in both coordinates.
    pub fn splat(v: i32) -> (pos: GridPos)
        ensures
            pos == (GridPos { x: v, y: v }),
    {
        GridPos { x: v, y: v }
    }

    /// Whether each coordinate leaves room for one step either way.
    pub open spec fn can_step(self) -> bool {
        &&& i32::MIN < self.x < i32::MAX
        &&& i32::MIN < self.y < i32::MAX
    }

    /// Whether each coordinate leaves room for one step either way.
    pub fn has_room(&self) -> (room: bool)
        ensures
            room == self.can_step(),
    {
        i32::MIN < self.x && self.x < i32::MAX && i32::MIN < self.y && self.y < i32::MAX
    }

    /// The position moved by `(dx, dy)`.
    pub open spec fn moved(self, dx: int, dy: int) -> GridPos {
        GridPos { x: (self.x + dx) as i32, y: (self.y + dy) as i32 }
    }
}

/// Marker for a flower, with the quantity a fresh one holds.
pub struct Flower;

impl Flower {
    pub const MAX: u32 = 1000;
}

/// Marker for a tree, with the quantity a fresh one holds.
pub struct Tree;

impl Tree {
    pub const MAX: u32 = 1000;
}

/// Marker for a colony, with the quantity a fresh one holds.
pub struct Colony;

impl Colony {
    pub const MAX: u32 = 1000;
}

/// The grid. `W` columns and `H` rows of cells, stored row by row.
pub struct GridMap<const W: usize, const H: usize> {
    data: Vec<Flag>,
}

/// `y * w + x` stays below `w * h` for a column below `w` and a row below `h`.
pub proof fn lemma_cell_index(x: int, y: int, w: int, h: int)
    requires
        0 <= x < w,
        0 <= y < h,
    ensures
        0 <= y * w <= y * w + x < w * h,
        y * w + x < (y + 1) * w,
{
    assert(y * w >= 0) by (nonlinear_arith)
        requires
            y >= 0,
            w > 0,
    ;
    assert((y + 1) * w <= h * w) by (nonlinear_arith)
        requires
            y + 1 <= h,
            w > 0,
    ;
    assert((y + 1) * w == y * w + w) by (nonlinear_arith);
    assert(h * w == w * h) by (nonlinear_arith);
}

/// Different cells have different numbers.
pub proof fn lemma_cell_apart(x: int, y: int, u: int, v: int, w: int, h: int)
    requires
        0 <= x < w,
        0 <= y < h,
        0 <= u < w,
        0 <= v < h,
        !(x == u && y == v),
    ensures
        y * w + x != v * w + u,
{
    lemma_cell_index(x, y, w, h);
    lemma_cell_index(u, v, w, h);
    if y < v {
        assert((y + 1) * w <= v * w) by (nonlinear_arith)
            requires
                y + 1 <= v,
                w > 0,
        ;
    } else if v < y {
        assert((v + 1) * w <= y * w) by (nonlinear_arith)
            requires
                v + 1 <= y,
                w > 0,
        ;
    }
}

impl<const W: usize, const H: usize> GridMap<W, H> {
    /// The cells, row by row.
    pub closed spec fn view(&self) -> Seq<Flag> {
        self.data@
    }

    /// Whether a grid of this size can be built: its cells can be counted
    /// and every column and row has a signed position.
    pub open spec fn fits() -> bool {
        &&& W * H <= usize::MAX
        &&& W <= i32::MAX
        &&& H <= i32::MAX
    }

    /// The grid holds exactly `W * H` cells, and its size fits.
    pub open spec fn wf(&self) -> bool {
        &&& Self::fits()
        &&& self@.len() == W * H
    }

    /// Whether column `x`, row `y` is a cell of the grid.
    pub open spec fn in_bounds(x: int, y: int) -> bool {
        0 <= x < W && 0 <= y < H
    }

    /// The cell at column `x`, row `y`.
    pub open spec fn at(&self, x: int, y: int) -> Flag {
        self@[y * W + x]
    }

    /// Whether `pos` is a cell of the grid.
    pub open spec fn contains(pos: GridPos) -> bool {
        0 <= pos.x < W && 0 <= pos.y < H
    }

    /// A grid of empty cells.
    pub fn new() -> (map: Self)
        requires
            Self::fits(),
        ensures
            map.wf(),
            forall|i: int| 0 <= i < W * H ==> (#[trigger] map@[i]).bits == 0,
    {
        let mut data: Vec<Flag> = Vec::new();
        let mut y: usize = 0;
        assert(0 * W == 0) by (nonlinear_arith);
        while y < H
            invariant
                y <= H,
                W * H <= usize::MAX,
                data@.len() == y * W,
                forall|i: int| 0 <= i < data@.len() ==> (#[trigger] data@[i]).bits == 0,
            decreases H - y,
        {
            let mut x: usize = 0;
            while x < W
                invariant
                    y < H,
                    x <= W,
                    W * H <= usize::MAX,
                    data@.len() == y * W + x,
                    forall|i: int| 0 <= i < data@.len() ==> (#[trigger] data@[i]).bits == 0,
                decreases W - x,
            {
                data.push(Flag::empty());
                x += 1;
            }
            assert((y + 1) * W == y * W + W) by (nonlinear_arith);
            y += 1;
        }
        assert(H * W == W * H) by (nonlinear_arith);
        GridMap { data }
    }

    /// The grid that holds `data`, row by row.
    pub(crate) fn from_cells(data: Vec<Flag>) -> (map: Self)
        requires
            Self::fits(),
            data@.len() == W * H,
        ensures
            map.wf(),
            map@ == data@,
    {
        GridMap { data }
    }

    pub fn w(&self) -> (w: usize)
        ensures
            w == W,
    {
        W
    }

    pub fn h(&self) -> (h: usize)
        ensures
            h == H,
    {
        H
    }

    /// The cell at column `x`, row `y`, or `None` outside the grid.
    pub fn get(&self, x: usize, y: usize) -> (cell: Option<Flag>)
        requires
            self.wf(),
        ensures
            cell == if Self::in_bounds(x as int, y as int) {
                Some(self.at(x as int, y as int))
            } else {
                None
            },
    {
        if x < W && y < H {
            proof {
                lemma_cell_index(x as int, y as int, W as int, H as int);
                assert(self.data@.len() == self.data.len());
            }
            Some(self.data[y * W + x])
        } else {
            None
        }
    }

    /// The cell at an unsigned position, or `None` outside the grid.
    pub fn get_uvec2(&self, x: u32, y: u32) -> (cell: Option<Flag>)
        requires
            self.wf(),
        ensures
            cell == if Self::in_bounds(x as int, y as int) {
                Some(self.at(x as int, y as int))
            } else {
                None
            },
    {
        self.get(x as usize, y as usize)
    }

    /// The cell at `pos`, or `None` outside the grid.
    pub fn get_ivec2(&self, checked: GridPos) -> (cell: Option<Flag>)
        requires
            self.wf(),
        ensures
            cell == if Self::contains(checked) {
                Some(self.at(checked.x as int, checked.y as int))
            } else {
                None
            },
    {
        if checked.x >= 0 && checked.y >= 0 {
            self.get(checked.x as usize, checked.y as usize)
        } else {
            None
        }
    }

    /// Stores `cell` at column `x`, row `y`. Outside the grid nothing is
    /// stored and the answer is `false`.
    pub fn set(&mut self, x: usize, y: usize, cell: Flag) -> (stored: bool)
        requires
            old(self).wf(),
        ensures
            final(self).wf(),
            stored == Self::in_bounds(x as int, y as int),
            stored ==> final(self)@ == old(self)@.update(y * W + x, cell),
            !stored ==> final(self)@ == old(self)@,
    {
        if x < W && y < H {
            proof {
                lemma_cell_index(x as int, y as int, W as int, H as int);
                assert(self.data@.len() == self.data.len());
            }
            self.data.set(y * W + x, cell);
            true
        } else {
            false
        }
    }
}

} // verus!
