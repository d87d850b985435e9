//! The four ways the camera can look at the grid.

use vstd::prelude::*;

verus! {

/// Which way the camera looks: two bits, one that flips the axes and one
/// that swaps them.
#[derive(Debug, Clone, Copy, PartialEq, Eq, Structural)]
pub struct Orientation {
    pub bits: u8,
}

/// The directions on screen for one orientation. Each component is -1, 0
/// or 1.
#[derive(Debug, Clone, Copy, PartialEq, Eq, Structural)]
pub struct Axes {
    pub up_x: i8,
    pub up_y: i8,
    pub right_x: i8,
    pub right_y: i8,
    pub flip_x: i8,
    pub flip_y: i8,
    pub mouse_swap: bool,
}

impl Axes {
    /// The axes with world-up `(ux, uy)`, world-right `(rx, ry)` and mouse
    /// flip `(fx, fy)`.
    pub open spec fn of(ux: int, uy: int, rx: int, ry: int, fx: int, fy: int, swap: bool) -> Axes {
        Axes {
            up_x: ux as i8,
            up_y: uy as i8,
            right_x: rx as i8,
            right_y: ry as i8,
            flip_x: fx as i8,
            flip_y: fy as i8,
            mouse_swap: swap,
        }
    }
}

impl Orientation {
    pub const FLIP_AXIS: u8 = 0b01;

    pub const SWAP_AXIS: u8 = 0b10;

    /// Whether the axes are swapped.
    pub open spec fn swapped(self) -> bool {
        self.bits & 0b10u8 != 0
    }

    /// Whether the axes are flipped.
    pub open spec fn flipped(self) -> bool {
        self.bits & 0b01u8 != 0
    }

    /// After a quarter turn to the right the swap changes, and the flip
    /// changes exactly when the swap is undone.
    pub open spec fn turned_right(self) -> Orientation {
        if self.swapped() {
            Orientation { bits: (self.bits ^ 0b10u8) ^ 0b01u8 }
        } else {
            Orientation { bits: self.bits ^ 0b10u8 }
        }
    }

    /// After a quarter turn to the left the swap changes, and the flip
    /// changes exactly when the swap is made.
    pub open spec fn turned_left(self) -> Orientation {
        if self.swapped() {
            Orientation { bits: self.bits ^ 0b10u8 }
        } else {
            Orientation { bits: (self.bits ^ 0b10u8) ^ 0b01u8 }
        }
    }

    /// The orientation at the start: flipped, not swapped.
    pub fn default() -> (orientation: Orientation)
        ensures
            orientation.bits == Orientation::FLIP_AXIS,
    {
        Orientation { bits: Orientation::FLIP_AXIS }
    }

    pub fn rotate_right(&mut self)
        ensures
            *final(self) == old(self).turned_right(),
    {
        let before: u8 = self.bits;
        let mut bits: u8 = before ^ Orientation::SWAP_AXIS;
        if bits & Orientation::SWAP_AXIS == 0 {
            bits = bits ^ Orientation::FLIP_AXIS;
        }
        assert(((before ^ 0b10u8) & 0b10u8 == 0) == (before & 0b10u8 != 0)) by (bit_vector);
        self.bits = bits;
    }

    pub fn rotate_left(&mut self)
        ensures
            *final(self) == old(self).turned_left(),
    {
        let before: u8 = self.bits;
        let mut bits: u8 = before ^ Orientation::SWAP_AXIS;
        if bits & Orientation::SWAP_AXIS != 0 {
            bits = bits ^ Orientation::FLIP_AXIS;
        }
        assert(((before ^ 0b10u8) & 0b10u8 != 0) == (before & 0b10u8 == 0)) by (bit_vector);
        self.bits = bits;
    }

    /// The directions on screen for this orientation.
    pub fn orient(&self) -> (axes: Axes)
        ensures
            axes == if self.swapped() && !self.flipped() {
                Axes::of(-1, 0, 0, -1, 1, 1, true)
            } else if self.swapped() {
                Axes::of(1, 0, 0, 1, -1, -1, true)
            } else if !self.flipped() {
                Axes::of(0, 1, -1, 0, 1, -1, false)
            } else {
                Axes::of(0, -1, 1, 0, -1, 1, false)
            },
    {
        if self.bits & Orientation::SWAP_AXIS != 0 {
            if self.bits & Orientation::FLIP_AXIS == 0 {
                Axes { up_x: -1, up_y: 0, right_x: 0, right_y: -1, flip_x: 1, flip_y: 1, mouse_swap: true }
            } else {
                Axes { up_x: 1, up_y: 0, right_x: 0, right_y: 1, flip_x: -1, flip_y: -1, mouse_swap: true }
            }
        } else if self.bits & Orientation::FLIP_AXIS == 0 {
            Axes { up_x: 0, up_y: 1, right_x: -1, right_y: 0, flip_x: 1, flip_y: -1, mouse_swap: false }
        } else {
            Axes { up_x: 0, up_y: -1, right_x: 1, right_y: 0, flip_x: -1, flip_y: 1, mouse_swap: false }
        }
    }
}

/// Four quarter turns to the right bring the camera back, and a turn to
/// the left undoes a turn to the right.
pub proof fn lemma_turns(o: Orientation)
    requires
        o.bits < 4,
    ensures
        o.turned_right().turned_right().turned_right().turned_right() == o,
        o.turned_right().turned_left() == o,
        o.turned_left().turned_right() == o,
{
    let b: u8 = o.bits;
    assert(b < 4 ==> (b == 0 || b == 1 || b == 2 || b == 3));
    assert(0u8 ^ 0b10u8 == 2u8 && 1u8 ^ 0b10u8 == 3u8 && 2u8 ^ 0b10u8 == 0u8 && 3u8 ^ 0b10u8 == 1u8
        && 0u8 ^ 0b01u8 == 1u8 && 1u8 ^ 0b01u8 == 0u8 && 2u8 ^ 0b01u8 == 3u8 && 3u8 ^ 0b01u8 == 2u8
        && 0u8 & 0b10u8 == 0u8 && 1u8 & 0b10u8 == 0u8 && 2u8 & 0b10u8 == 2u8 && 3u8 & 0b10u8 == 2u8)
        by (bit_vector);
}

} // verus!
