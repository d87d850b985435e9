//! The grid as it is saved: the cells' integers in one list, row by row,
//! with the width and the height.

use vstd::prelude::*;
use crate::world::flag::{Flag, FlagType};
use crate::world::map::{lemma_cell_index, GridMap};

verus! {

/// A grid as it is saved.
pub struct SaveMap {
    pub data: Vec<FlagType>,
    pub width: usize,
    pub height: usize,
}

/// Why a saved grid cannot be loaded.
#[derive(Debug, Clone, Copy, PartialEq, Eq, Structural)]
pub enum LoadError {
    /// The saved width or height is not that of the grid to be built.
    Dimensions,
    /// The list does not hold one integer for each cell.
    Length,
}

impl SaveMap {
    /// The saved form of `map`.
    pub fn from_map<const W: usize, const H: usize>(map: &GridMap<W, H>) -> (saved: SaveMap)
        requires
            map.wf(),
        ensures
            saved.width == W,
            saved.height == H,
            saved.data@.len() == W * H,
            forall|i: int| 0 <= i < W * H ==> #[trigger] saved.data@[i] == map@[i].bits,
    {
        let mut data: Vec<FlagType> = Vec::new();
        let mut y: usize = 0;
        assert(0 * W == 0) by (nonlinear_arith);
        while y < H
            invariant
                map.wf(),
                y <= H,
                data@.len() == y * W,
                forall|i: int| 0 <= i < data@.len() ==> #[trigger] data@[i] == map@[i].bits,
            decreases H - y,
        {
            let mut x: usize = 0;
            while x < W
                invariant
                    map.wf(),
                    y < H,
                    x <= W,
                    data@.len() == y * W + x,
                    forall|i: int| 0 <= i < data@.len() ==> #[trigger] data@[i] == map@[i].bits,
                decreases W - x,
            {
                proof {
                    lemma_cell_index(x as int, y as int, W as int, H as int);
                }
                match map.get(x, y) {
                    Some(cell) => data.push(cell.bits()),
                    None => {},
                }
                x += 1;
            }
            assert((y + 1) * W == y * W + W) by (nonlinear_arith);
            y += 1;
        }
        assert(H * W == W * H) by (nonlinear_arith);
        SaveMap { data, width: W, height: H }
    }

    /// Whether this is a saved grid of `W` columns and `H` rows with one
    /// integer for each cell.
    pub open spec fn fits_grid<const W: usize, const H: usize>(&self) -> bool {
        self.width == W && self.height == H && self.data@.len() == W * H
    }

    /// What keeps the saved grid from being loaded as a grid of `W` columns
    /// and `H` rows, if anything does.
    pub fn mismatch<const W: usize, const H: usize>(&self) -> (error: Option<LoadError>)
        requires
            GridMap::<W, H>::fits(),
        ensures
            error == if self.width != W || self.height != H {
                Some(LoadError::Dimensions)
            } else if self.data@.len() != W * H {
                Some(LoadError::Length)
            } else {
                None
            },
            error is None <==> self.fits_grid::<W, H>(),
    {
        if self.width != W || self.height != H {
            Some(LoadError::Dimensions)
        } else if self.data.len() != W * H {
            Some(LoadError::Length)
        } else {
            None
        }
    }

    /// The grid that was saved. A saved grid of another width or height, or
    /// with a list of another length, cannot be loaded at all.
    pub fn into_map<const W: usize, const H: usize>(&self) -> (map: GridMap<W, H>)
        requires
            GridMap::<W, H>::fits(),
            self.fits_grid::<W, H>(),
        ensures
            map.wf(),
            forall|i: int| 0 <= i < W * H ==> (#[trigger] map@[i]).bits == self.data@[i],
    {
        let area: usize = W * H;
        let mut cells: Vec<Flag> = Vec::new();
        let mut i: usize = 0;
        while i < area
            invariant
                i <= area,
                area == self.data@.len(),
                cells@.len() == i,
                forall|j: int| 0 <= j < i ==> (#[trigger] cells@[j]).bits == self.data@[j],
            decreases area - i,
        {
            cells.push(Flag::from_bits_truncate(self.data[i]));
            i += 1;
        }
        GridMap::from_cells(cells)
    }
}

} // verus!
