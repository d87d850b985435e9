//! A field over the grid, kept in two buffers: one that is read, one that
//! the next state is written to.

use vstd::prelude::*;
use crate::world::map::{lemma_cell_apart, lemma_cell_index};

verus! {

/// A cell of a field and the eight around it. South is the row below,
/// west the column before.
#[derive(Debug)]
pub struct Patch<T> {
    pub sw: T,
    pub s: T,
    pub se: T,
    pub w: T,
    pub centre: T,
    pub e: T,
    pub nw: T,
    pub n: T,
    pub ne: T,
}

/// The four cells next to a cell along the axes.
#[derive(Debug)]
pub struct Cross<T> {
    pub west: T,
    pub east: T,
    pub south: T,
    pub north: T,
}

/// A field of `W` columns and `H` rows. Reads see the active buffer only.
/// An update fills the other buffer from the active one and then swaps the
/// two; the cells on the border keep their values.
pub struct Field<T, const W: usize, const H: usize> {
    active: Vec<T>,
    inactive: Vec<T>,
}

impl<T: Copy, const W: usize, const H: usize> Field<T, W, H> {
    /// The active buffer, row by row: what a reader sees.
    pub closed spec fn view(&self) -> Seq<T> {
        self.active@
    }

    /// The buffer that the next update writes to, row by row.
    pub closed spec fn shadow(&self) -> Seq<T> {
        self.inactive@
    }

    /// Whether a field of this size can be built.
    pub open spec fn fits() -> bool {
        W * H <= usize::MAX
    }

    /// Both buffers hold exactly `W * H` cells.
    pub open spec fn wf(&self) -> bool {
        &&& Self::fits()
        &&& self@.len() == W * H
        &&& self.shadow().len() == W * H
    }

    /// Whether column `x`, row `y` is a cell of the field.
    pub open spec fn in_bounds(x: int, y: int) -> bool {
        0 <= x < W && 0 <= y < H
    }

    /// Whether column `x`, row `y` is a cell with cells all around it.
    pub open spec fn interior(x: int, y: int) -> bool {
        1 <= x < W - 1 && 1 <= y < H - 1
    }

    /// The cell of `cells` at column `x`, row `y`.
    pub open spec fn cell(cells: Seq<T>, x: int, y: int) -> T {
        cells[y * W + x]
    }

    /// The cell of `cells` at column `x`, row `y`, and the eight around it.
    pub open spec fn patch(cells: Seq<T>, x: int, y: int) -> Patch<T> {
        Patch {
            sw: Self::cell(cells, x - 1, y - 1),
            s: Self::cell(cells, x, y - 1),
            se: Self::cell(cells, x + 1, y - 1),
            w: Self::cell(cells, x - 1, y),
            centre: Self::cell(cells, x, y),
            e: Self::cell(cells, x + 1, y),
            nw: Self::cell(cells, x - 1, y + 1),
            n: Self::cell(cells, x, y + 1),
            ne: Self::cell(cells, x + 1, y + 1),
        }
    }

    /// The four cells of `cells` next to column `x`, row `y`.
    pub open spec fn cross(cells: Seq<T>, x: int, y: int) -> Cross<T> {
        Cross {
            west: Self::cell(cells, x - 1, y),
            east: Self::cell(cells, x + 1, y),
            south: Self::cell(cells, x, y - 1),
            north: Self::cell(cells, x, y + 1),
        }
    }

    /// A field with `fill` in every cell of both buffers.
    pub fn new(fill: T) -> (field: Self)
        requires
            Self::fits(),
        ensures
            field.wf(),
            forall|i: int| 0 <= i < W * H ==> #[trigger] field@[i] == fill,
            forall|i: int| 0 <= i < W * H ==> #[trigger] field.shadow()[i] == fill,
    {
        let area: usize = W * H;
        let mut active: Vec<T> = Vec::new();
        let mut inactive: Vec<T> = Vec::new();
        let mut i: usize = 0;
        while i < area
            invariant
                i <= area,
                active@.len() == i,
                inactive@.len() == i,
                forall|j: int| 0 <= j < i ==> #[trigger] active@[j] == fill,
                forall|j: int| 0 <= j < i ==> #[trigger] inactive@[j] == fill,
            decreases area - i,
        {
            active.push(fill);
            inactive.push(fill);
            i += 1;
        }
        Field { active, inactive }
    }

    /// The value at column `x`, row `y`, or `None` outside the field.
    pub fn get(&self, x: usize, y: usize) -> (value: Option<T>)
        requires
            self.wf(),
        ensures
            value == if Self::in_bounds(x as int, y as int) {
                Some(Self::cell(self@, x as int, y as int))
            } else {
                None
            },
    {
        if x < W && y < H {
            proof {
                lemma_cell_index(x as int, y as int, W as int, H as int);
            }
            Some(self.active[y * W + x])
        } else {
            None
        }
    }

    /// Stores `value` at column `x`, row `y` of the active buffer. Outside
    /// the field nothing is stored and the answer is `false`.
    pub fn set(&mut self, x: usize, y: usize, value: T) -> (stored: bool)
        requires
            old(self).wf(),
        ensures
            final(self).wf(),
            final(self).shadow() == old(self).shadow(),
            stored == Self::in_bounds(x as int, y as int),
            stored ==> final(self)@ == old(self)@.update(y * W + x, value),
            !stored ==> final(self)@ == old(self)@,
    {
        if x < W && y < H {
            proof {
                lemma_cell_index(x as int, y as int, W as int, H as int);
            }
            self.active.set(y * W + x, value);
            true
        } else {
            false
        }
    }

    /// The four values next to column `x`, row `y`, or `None` where the
    /// cell lies on the border of the field or outside it.
    pub fn neighbors(&self, x: usize, y: usize) -> (around: Option<Cross<T>>)
        requires
            self.wf(),
        ensures
            around == if Self::interior(x as int, y as int) {
                Some(Self::cross(self@, x as int, y as int))
            } else {
                None
            },
    {
        if 1 <= x && x < W && x + 1 < W && 1 <= y && y < H && y + 1 < H {
            proof {
                lemma_cell_index(x - 1, y as int, W as int, H as int);
                lemma_cell_index(x + 1, y as int, W as int, H as int);
                lemma_cell_index(x as int, y - 1, W as int, H as int);
                lemma_cell_index(x as int, y + 1, W as int, H as int);
            }
            Some(
                Cross {
                    west: self.active[y * W + (x - 1)],
                    east: self.active[y * W + (x + 1)],
                    south: self.active[(y - 1) * W + x],
                    north: self.active[(y + 1) * W + x],
                },
            )
        } else {
            None
        }
    }

    fn patch_at(&self, x: usize, y: usize) -> (patch: Patch<T>)
        requires
            self.wf(),
            Self::interior(x as int, y as int),
        ensures
            patch == Self::patch(self@, x as int, y as int),
    {
        proof {
            lemma_cell_index(x - 1, y - 1, W as int, H as int);
            lemma_cell_index(x as int, y - 1, W as int, H as int);
            lemma_cell_index(x + 1, y - 1, W as int, H as int);
            lemma_cell_index(x - 1, y as int, W as int, H as int);
            lemma_cell_index(x as int, y as int, W as int, H as int);
            lemma_cell_index(x + 1, y as int, W as int, H as int);
            lemma_cell_index(x - 1, y + 1, W as int, H as int);
            lemma_cell_index(x as int, y + 1, W as int, H as int);
            lemma_cell_index(x + 1, y + 1, W as int, H as int);
        }
        Patch {
            sw: self.active[(y - 1) * W + (x - 1)],
            s: self.active[(y - 1) * W + x],
            se: self.active[(y - 1) * W + (x + 1)],
            w: self.active[y * W + (x - 1)],
            centre: self.active[y * W + x],
            e: self.active[y * W + (x + 1)],
            nw: self.active[(y + 1) * W + (x - 1)],
            n: self.active[(y + 1) * W + x],
            ne: self.active[(y + 1) * W + (x + 1)],
        }
    }

    /// One update of the field. For each interior cell, `rule` is given the
    /// cell and the eight around it as the active buffer holds them, and
    /// what it returns is written to the other buffer; each cell on the
    /// border is copied there as it is. Then the buffers swap. So a reader
    /// sees, in the interior, the new values only, each computed from old
    /// values only, and on the border the values that were there; and the
    /// old values are kept in the buffer that is now inactive.
    pub fn update<F: Fn(Patch<T>) -> T>(&mut self, rule: &F)
        requires
            old(self).wf(),
            forall|x: int, y: int|
                Self::interior(x, y) ==> call_requires(rule, (#[trigger] Self::patch(old(self)@, x, y),)),
        ensures
            final(self).wf(),
            final(self).shadow() == old(self)@,
            forall|x: int, y: int|
                Self::interior(x, y) ==> call_ensures(
                    rule,
                    (Self::patch(old(self)@, x, y),),
                    #[trigger] Self::cell(final(self)@, x, y),
                ),
            forall|x: int, y: int|
                Self::in_bounds(x, y) && !Self::interior(x, y) ==> #[trigger] Self::cell(
                    final(self)@,
                    x,
                    y,
                ) == Self::cell(old(self)@, x, y),
    {
        let mut y: usize = 0;
        while y < H
            invariant
                self.wf(),
                y <= H,
                self@ == old(self)@,
                forall|x: int, y: int|
                    Self::interior(x, y) ==> call_requires(
                        rule,
                        (#[trigger] Self::patch(old(self)@, x, y),),
                    ),
                forall|cx: int, cy: int|
                    Self::interior(cx, cy) && cy < y ==> call_ensures(
                        rule,
                        (Self::patch(old(self)@, cx, cy),),
                        #[trigger] Self::cell(self.shadow(), cx, cy),
                    ),
                forall|cx: int, cy: int|
                    Self::in_bounds(cx, cy) && !Self::interior(cx, cy) && cy < y
                        ==> #[trigger] Self::cell(self.shadow(), cx, cy) == Self::cell(
                        old(self)@,
                        cx,
                        cy,
                    ),
            decreases H - y,
        {
            let mut x: usize = 0;
            while x < W
                invariant
                    self.wf(),
                    y < H,
                    x <= W,
                    self@ == old(self)@,
                    forall|x: int, y: int|
                        Self::interior(x, y) ==> call_requires(
                            rule,
                            (#[trigger] Self::patch(old(self)@, x, y),),
                        ),
                    forall|cx: int, cy: int|
                        Self::interior(cx, cy) && (cy < y || (cy == y && cx < x)) ==> call_ensures(
                            rule,
                            (Self::patch(old(self)@, cx, cy),),
                            #[trigger] Self::cell(self.shadow(), cx, cy),
                        ),
                    forall|cx: int, cy: int|
                        Self::in_bounds(cx, cy) && !Self::interior(cx, cy) && (cy < y || (cy == y
                            && cx < x)) ==> #[trigger] Self::cell(self.shadow(), cx, cy)
                            == Self::cell(old(self)@, cx, cy),
                decreases W - x,
            {
                let inside = 1 <= x && x + 1 < W && 1 <= y && y + 1 < H;
                proof {
                    lemma_cell_index(x as int, y as int, W as int, H as int);
                }
                let value = if inside {
                    rule(self.patch_at(x, y))
                } else {
                    self.active[y * W + x]
                };
                let ghost before = self.shadow();
                self.inactive.set(y * W + x, value);
                proof {
                    assert forall|cx: int, cy: int|
                        Self::in_bounds(cx, cy) && !(cx == x && cy == y) implies #[trigger] Self::cell(
                        self.shadow(),
                        cx,
                        cy,
                    ) == Self::cell(before, cx, cy) by {
                        lemma_cell_apart(cx, cy, x as int, y as int, W as int, H as int);
                        lemma_cell_index(cx, cy, W as int, H as int);
                    }
                    assert(Self::cell(self.shadow(), x as int, y as int) == value);
                    assert forall|cx: int, cy: int|
                        Self::interior(cx, cy) && (cy < y || (cy == y && cx < x + 1))
                            implies call_ensures(
                        rule,
                        (Self::patch(old(self)@, cx, cy),),
                        #[trigger] Self::cell(self.shadow(), cx, cy),
                    ) by {
                        if cx == x && cy == y {
                        } else {
                            assert(Self::cell(self.shadow(), cx, cy) == Self::cell(before, cx, cy));
                        }
                    }
                    assert forall|cx: int, cy: int|
                        Self::in_bounds(cx, cy) && !Self::interior(cx, cy) && (cy < y || (cy == y
                            && cx < x + 1)) implies #[trigger] Self::cell(self.shadow(), cx, cy)
                            == Self::cell(old(self)@, cx, cy) by {
                        if cx == x && cy == y {
                        } else {
                            assert(Self::cell(self.shadow(), cx, cy) == Self::cell(before, cx, cy));
                        }
                    }
                }
                x += 1;
            }
            y += 1;
        }
        core::mem::swap(&mut self.active, &mut self.inactive);
    }
}

/// Whatever a rule promises of each of its results holds, after an update
/// with that rule, of every interior cell: a rule that keeps its results
/// within bounds keeps the updated field within them.
pub proof fn lemma_update_within<T: Copy, const W: usize, const H: usize, F: Fn(Patch<T>) -> T>(
    before: Seq<T>,
    after: Seq<T>,
    rule: F,
    promise: spec_fn(T) -> bool,
)
    requires
        forall|x: int, y: int|
            Field::<T, W, H>::interior(x, y) ==> call_ensures(
                rule,
                (Field::<T, W, H>::patch(before, x, y),),
                #[trigger] Field::<T, W, H>::cell(after, x, y),
            ),
        forall|p: Patch<T>, v: T| #[trigger] call_ensures(rule, (p,), v) ==> promise(v),
    ensures
        forall|x: int, y: int|
            Field::<T, W, H>::interior(x, y) ==> promise(
                #[trigger] Field::<T, W, H>::cell(after, x, y),
            ),
{
}

/// In a field that holds one value in every cell, the four cells next to
/// an interior cell hold that value, so that what lies west equals what
/// lies east, and what lies south equals what lies north.
pub proof fn lemma_flat_field_cross<T: Copy, const W: usize, const H: usize>(
    cells: Seq<T>,
    value: T,
    x: int,
    y: int,
)
    requires
        cells.len() == W * H,
        forall|i: int| 0 <= i < cells.len() ==> cells[i] == value,
        Field::<T, W, H>::interior(x, y),
    ensures
        Field::<T, W, H>::cross(cells, x, y) == (Cross {
            west: value,
            east: value,
            south: value,
            north: value,
        }),
{
    lemma_cell_index(x - 1, y, W as int, H as int);
    lemma_cell_index(x + 1, y, W as int, H as int);
    lemma_cell_index(x, y - 1, W as int, H as int);
    lemma_cell_index(x, y + 1, W as int, H as int);
}

} // verus!
