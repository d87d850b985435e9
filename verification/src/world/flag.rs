//! One grid cell: kind bits in the low region, a resource quantity above them.

use vstd::prelude::*;

verus! {

/// The integer that a cell is stored in.
pub type FlagType = u32;

/// A grid cell. The low ten bits each name a kind; the upper twenty-two hold
/// an unsigned resource quantity. Every bit pattern is a valid cell.
#[derive(Clone, Copy, Debug, PartialEq, Eq, Hash, Structural)]
pub struct Flag {
    pub bits: FlagType,
}

impl Flag {
    pub const EMPTY: FlagType = 0x0000_0000;

    pub const FLOWER: FlagType = 0x0000_0001;

    pub const TREE: FlagType = 0x0000_0002;

    pub const VOLCANO: FlagType = 0x0000_0004;

    pub const COLONY_C: FlagType = 0x0000_0008;

    pub const COLONY_M: FlagType = 0x0000_0010;

    pub const COLONY_Y: FlagType = 0x0000_0020;

    pub const MULTIVAC: FlagType = 0x0000_0040;

    pub const WIRE: FlagType = 0x0000_0080;

    pub const OUTPOST: FlagType = 0x0000_0100;

    pub const CONNECTED: FlagType = 0x0000_0200;

    /// What a drone gathers.
    pub const HIVE_FOOD: FlagType = 0x0000_0001;

    /// What the router connects to.
    pub const MULTIVAC_FOOD: FlagType = 0x0000_0007;

    /// Trees and volcanos block movement.
    pub const WALL: FlagType = 0x0000_0006;

    /// The three colony identities, which may combine.
    pub const COLONY_ALL: FlagType = 0x0000_0038;

    /// The region that stores the resource quantity.
    pub const RESOURCE_QUANTITY: FlagType = 0xffff_fc00;

    /// The region that stores the kind bits.
    pub const KIND_MASK: FlagType = 0x0000_03ff;

    /// Bit position of the lowest quantity bit.
    pub const QUANTITY_SHIFT: u32 = 10;

    /// The largest quantity a cell can store.
    pub const MAX_RESOURCE_COUNT: u32 = 0x003f_ffff;

    /// The resource quantity stored in the cell.
    pub open spec fn quantity(self) -> u32 {
        self.bits >> 10u32
    }

    /// The kind bits, with the quantity region cleared.
    pub open spec fn kind(self) -> FlagType {
        self.bits & 0x0000_03ffu32
    }

    /// Whether the cell has at least one bit of `mask`.
    pub open spec fn has(self, mask: FlagType) -> bool {
        self.bits & mask != 0
    }

    /// The cell with its quantity replaced by the low twenty-two bits of
    /// `count` and its kind bits kept.
    pub open spec fn with_quantity(self, count: u32) -> Flag {
        Flag { bits: (self.bits & 0x0000_03ffu32) | (count << 10u32) }
    }

    /// The cell with the given bits.
    pub fn from_bits_truncate(bits: FlagType) -> (cell: Flag)
        ensures
            cell.bits == bits,
    {
        Flag { bits }
    }

    /// The cell with the given bits. No bit is without a meaning, so this
    /// never fails.
    pub fn from_bits(bits: FlagType) -> (cell: Option<Flag>)
        ensures
            cell == Some(Flag { bits }),
    {
        Some(Flag { bits })
    }

    /// The cell with no kind and no quantity.
    pub fn empty() -> (cell: Flag)
        ensures
            cell.bits == 0,
    {
        Flag { bits: Flag::EMPTY }
    }

    pub fn bits(&self) -> (bits: FlagType)
        ensures
            bits == self.bits,
    {
        self.bits
    }

    /// Whether neither a kind bit nor a quantity bit is set.
    pub fn is_empty(&self) -> (none: bool)
        ensures
            none == (self.bits == 0),
    {
        self.bits == 0
    }

    /// Whether the cell shares a bit with `mask`.
    pub fn intersects(&self, mask: FlagType) -> (some: bool)
        ensures
            some == self.has(mask),
    {
        self.bits & mask != 0
    }

    /// Whether the cell has every bit of `mask`.
    pub fn contains(&self, mask: FlagType) -> (every: bool)
        ensures
            every == (self.bits & mask == mask),
    {
        self.bits & mask == mask
    }

    /// Sets the bits of `mask`.
    pub fn insert(&mut self, mask: FlagType)
        ensures
            final(self).bits == old(self).bits | mask,
    {
        self.bits = self.bits | mask;
    }

    /// Clears the bits of `mask`.
    pub fn remove(&mut self, mask: FlagType)
        ensures
            final(self).bits == old(self).bits & !mask,
    {
        self.bits = self.bits & !mask;
    }

    pub fn get_resource_quantity(&self) -> (count: u32)
        ensures
            count == self.quantity(),
            count <= Flag::MAX_RESOURCE_COUNT,
    {
        let bits: u32 = self.bits & Flag::RESOURCE_QUANTITY;
        let word: u32 = self.bits;
        assert((word & 0xffff_fc00u32) >> 10u32 == word >> 10u32) by (bit_vector);
        assert(word >> 10u32 <= 0x003f_ffffu32) by (bit_vector);
        bits >> Flag::QUANTITY_SHIFT
    }

    /// Stores `count` as the quantity. The kind bits stay; of a count above
    /// `MAX_RESOURCE_COUNT` only the low twenty-two bits are kept.
    pub fn set_resource_quantity(&mut self, count: u32)
        ensures
            *final(self) == old(self).with_quantity(count),
            final(self).kind() == old(self).kind(),
            final(self).quantity() == count & Flag::MAX_RESOURCE_COUNT,
            count <= Flag::MAX_RESOURCE_COUNT ==> final(self).quantity() == count,
    {
        let word: u32 = self.bits;
        proof {
            lemma_quantity_round_trip(*self, count);
            assert(count <= 0x003f_ffffu32 ==> count & 0x003f_ffffu32 == count) by (bit_vector);
        }
        self.bits = (word & Flag::KIND_MASK) | (count << Flag::QUANTITY_SHIFT);
    }
}

/// No cell stores more than `MAX_RESOURCE_COUNT`.
pub proof fn lemma_quantity_bound(cell: Flag)
    ensures
        cell.quantity() <= Flag::MAX_RESOURCE_COUNT,
{
    let word: u32 = cell.bits;
    assert(word >> 10u32 <= 0x003f_ffffu32) by (bit_vector);
}

/// Storing a quantity and reading it back gives the low twenty-two bits of
/// what was stored, which is the quantity itself when it is at most
/// `MAX_RESOURCE_COUNT`; the kind bits are the same before and after.
pub proof fn lemma_quantity_round_trip(cell: Flag, count: u32)
    ensures
        cell.with_quantity(count).quantity() == count & Flag::MAX_RESOURCE_COUNT,
        count <= Flag::MAX_RESOURCE_COUNT ==> cell.with_quantity(count).quantity() == count,
        cell.with_quantity(count).kind() == cell.kind(),
{
    let word: u32 = cell.bits;
    assert(((word & 0x0000_03ffu32) | (count << 10u32)) >> 10u32 == count & 0x003f_ffffu32)
        by (bit_vector);
    assert(((word & 0x0000_03ffu32) | (count << 10u32)) & 0x0000_03ffu32 == word & 0x0000_03ffu32)
        by (bit_vector);
    assert(count <= 0x003f_ffffu32 ==> count & 0x003f_ffffu32 == count) by (bit_vector);
}

} // verus!
