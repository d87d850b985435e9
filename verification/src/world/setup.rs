//! Making a loaded grid ready for play.

use vstd::prelude::*;
use crate::world::flag::Flag;
use crate::world::map::{lemma_cell_apart, lemma_cell_index, Flower, GridMap, GridPos, Tree};

verus! {

/// Whether column `x`, row `y` lies on the outermost ring of a grid that
/// is `w` wide and `h` high.
pub open spec fn on_border(x: int, y: int, w: int, h: int) -> bool {
    x == 0 || y == 0 || x == w - 1 || y == h - 1
}

/// A cell made ready for play: a tree and a flower each get their full
/// quantity, and an empty cell on the border becomes a full tree.
pub open spec fn settled(cell: Flag, border: bool) -> Flag {
    let tree = if cell.has(Flag::TREE) {
        cell.with_quantity(Tree::MAX)
    } else {
        cell
    };
    let flower = if tree.has(Flag::FLOWER) {
        tree.with_quantity(Flower::MAX)
    } else {
        tree
    };
    if border && flower.bits == 0 {
        (Flag { bits: Flag::TREE }).with_quantity(Tree::MAX)
    } else {
        flower
    }
}

fn settle(cell: Flag, border: bool) -> (ready: Flag)
    ensures
        ready == settled(cell, border),
{
    let mut ready = cell;
    if ready.intersects(Flag::TREE) {
        ready.set_resource_quantity(Tree::MAX);
    }
    if ready.intersects(Flag::FLOWER) {
        ready.set_resource_quantity(Flower::MAX);
    }
    if border && ready.is_empty() {
        ready = Flag::from_bits_truncate(Flag::TREE);
        ready.set_resource_quantity(Tree::MAX);
    }
    ready
}

impl<const W: usize, const H: usize> GridMap<W, H> {
    /// Makes the grid ready for play: every tree and every flower gets its
    /// full quantity, and the empty cells of the outermost ring are filled
    /// with trees.
    pub fn initialize_map(&mut self)
        requires
            old(self).wf(),
        ensures
            final(self).wf(),
            forall|x: int, y: int|
                Self::in_bounds(x, y) ==> #[trigger] final(self).at(x, y) == settled(
                    old(self).at(x, y),
                    on_border(x, y, W as int, H as int),
                ),
    {
        let mut y: usize = 0;
        while y < H
            invariant
                self.wf(),
                y <= H,
                forall|cx: int, cy: int|
                    Self::in_bounds(cx, cy) && cy < y ==> #[trigger] self.at(cx, cy) == settled(
                        old(self).at(cx, cy),
                        on_border(cx, cy, W as int, H as int),
                    ),
                forall|cx: int, cy: int|
                    Self::in_bounds(cx, cy) && cy >= y ==> #[trigger] self.at(cx, cy) == old(self).at(
                        cx,
                        cy,
                    ),
            decreases H - y,
        {
            let mut x: usize = 0;
            while x < W
                invariant
                    self.wf(),
                    y < H,
                    x <= W,
                    forall|cx: int, cy: int|
                        Self::in_bounds(cx, cy) && (cy < y || (cy == y && cx < x))
                            ==> #[trigger] self.at(cx, cy) == settled(
                            old(self).at(cx, cy),
                            on_border(cx, cy, W as int, H as int),
                        ),
                    forall|cx: int, cy: int|
                        Self::in_bounds(cx, cy) && !(cy < y || (cy == y && cx < x))
                            ==> #[trigger] self.at(cx, cy) == old(self).at(cx, cy),
                decreases W - x,
            {
                let border = x == 0 || y == 0 || x == W - 1 || y == H - 1;
                let ghost before = *self;
                proof {
                    lemma_cell_index(x as int, y as int, W as int, H as int);
                }
                match self.get(x, y) {
                    Some(cell) => {
                        self.set(x, y, settle(cell, border));
                    },
                    None => {},
                }
                proof {
                    assert forall|cx: int, cy: int|
                        Self::in_bounds(cx, cy) && !(cx == x && cy == y) implies #[trigger] self.at(
                        cx,
                        cy,
                    ) == before.at(cx, cy) by {
                        lemma_cell_apart(cx, cy, x as int, y as int, W as int, H as int);
                        lemma_cell_index(cx, cy, W as int, H as int);
                    }
                }
                x += 1;
            }
            y += 1;
        }
    }
}

/// Where the first router appears: the middle of the world.
pub open spec fn apocalypse_site() -> GridPos {
    GridPos { x: (crate::WORLD_SIZE / 2) as i32, y: (crate::WORLD_SIZE / 2) as i32 }
}

/// Marks the middle of the world as a router's cell, where the grid has
/// such a cell, and says where that is.
pub fn start_apocalypse<const W: usize, const H: usize>(map: &mut GridMap<W, H>) -> (position: GridPos)
    requires
        old(map).wf(),
    ensures
        final(map).wf(),
        position == apocalypse_site(),
        final(map)@ == if GridMap::<W, H>::in_bounds(position.x as int, position.y as int) {
            old(map)@.update(
                position.y * W + position.x,
                Flag {
                    bits: old(map).at(position.x as int, position.y as int).bits | Flag::MULTIVAC,
                },
            )
        } else {
            old(map)@
        },
{
    let middle: usize = crate::WORLD_SIZE / 2;
    match map.get(middle, middle) {
        Some(cell) => {
            let mut marked = cell;
            marked.insert(Flag::MULTIVAC);
            map.set(middle, middle, marked);
        },
        None => {},
    }
    GridPos::splat(middle as i32)
}

/// The picture of a flower that holds `quantity`: the less it holds, the
/// further the picture, from 0 for a full flower to 16 for an empty one.
pub fn animate_despawn_flower(quantity: u32) -> (index: usize)
    requires
        quantity <= Flower::MAX,
    ensures
        index == (Flower::MAX - quantity) * 16 / (Flower::MAX as int),
        index <= 16,
{
    let idx: u32 = (Flower::MAX - quantity) * 16 / Flower::MAX;
    if idx < 16 {
        idx as usize
    } else {
        16
    }
}

/// How full a colony's store is, in hundredths of a full store.
pub fn healthbars(quantity: u32) -> (percent: u32)
    requires
        quantity <= Flag::MAX_RESOURCE_COUNT,
    ensures
        percent == quantity * 100 / (crate::world::map::Colony::MAX as int),
{
    quantity * 100 / crate::world::map::Colony::MAX
}

} // verus!
