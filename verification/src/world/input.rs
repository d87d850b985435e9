//! What the player's clicks do to the grid.

use vstd::prelude::*;
use crate::game::{ByteOp, GameEvent, GameState};
use crate::world::flag::Flag;
use crate::world::map::{Flower, GridMap, Tree};

verus! {

/// What a click asks for.
#[derive(Debug, Clone, Copy, PartialEq, Eq, Structural)]
pub enum ClickAction {
    AddFlower,
    AddTree,
    Remove,
}

/// Whether cheats are on: placements cost nothing and colonies do not die.
#[derive(Debug, Clone, Copy, PartialEq, Eq, Structural)]
pub struct Cheat(pub bool);

impl Cheat {
    /// Turns cheats on where they were off, and off where they were on.
    pub fn toggle(&mut self)
        ensures
            final(self).0 == !old(self).0,
    {
        self.0 = !self.0;
    }
}

/// Whether a click with `action` on `cell` does anything, given the stock.
/// A flower or a tree needs stock and an empty cell; a removal needs stock
/// and a flower or a tree to remove.
pub open spec fn accepted(cell: Flag, stock: GameState, action: ClickAction) -> bool {
    match action {
        ClickAction::AddFlower => stock.flower_ammo > 0 && cell.bits == 0,
        ClickAction::AddTree => stock.tree_ammo > 0 && cell.bits == 0,
        ClickAction::Remove => stock.delete_ammo > 0 && cell.has(Flag::FLOWER | Flag::TREE),
    }
}

/// The cell after an accepted click.
pub open spec fn clicked(action: ClickAction) -> Flag {
    match action {
        ClickAction::AddFlower => Flag { bits: Flag::FLOWER }.with_quantity(Flower::MAX),
        ClickAction::AddTree => Flag { bits: Flag::TREE }.with_quantity(Tree::MAX),
        ClickAction::Remove => Flag { bits: Flag::EMPTY },
    }
}

/// What an accepted click takes from the stock.
pub open spec fn charge(action: ClickAction) -> GameEvent {
    match action {
        ClickAction::AddFlower => GameEvent::Flower(ByteOp::Decrement),
        ClickAction::AddTree => GameEvent::Tree(ByteOp::Decrement),
        ClickAction::Remove => GameEvent::Delete(ByteOp::Decrement),
    }
}

/// A click with `action` on column `x`, row `y`. Where it is accepted the
/// cell changes and the answer is `true`, with the charge to the stock
/// unless cheats are on. A click outside the grid is not accepted.
pub fn handle_event<const W: usize, const H: usize>(
    map: &mut GridMap<W, H>,
    game_state: &GameState,
    cheat: Cheat,
    x: usize,
    y: usize,
    action: ClickAction,
) -> (done: (bool, Option<GameEvent>))
    requires
        old(map).wf(),
    ensures
        final(map).wf(),
        done.0 == (GridMap::<W, H>::in_bounds(x as int, y as int) && accepted(
            old(map).at(x as int, y as int),
            *game_state,
            action,
        )),
        done.0 ==> final(map)@ == old(map)@.update(y * W + x, clicked(action)),
        !done.0 ==> final(map)@ == old(map)@,
        done.1 == if done.0 && !cheat.0 {
            Some(charge(action))
        } else {
            None
        },
{
    let cell = match map.get(x, y) {
        Some(c) => c,
        None => {
            return (false, None);
        },
    };
    let (ok, event) = match action {
        ClickAction::AddFlower => (
            game_state.flower_ammo > 0 && cell.is_empty(),
            GameEvent::Flower(ByteOp::Decrement),
        ),
        ClickAction::AddTree => (
            game_state.tree_ammo > 0 && cell.is_empty(),
            GameEvent::Tree(ByteOp::Decrement),
        ),
        ClickAction::Remove => (
            game_state.delete_ammo > 0 && cell.intersects(Flag::FLOWER | Flag::TREE),
            GameEvent::Delete(ByteOp::Decrement),
        ),
    };
    if !ok {
        return (false, None);
    }
    let mut next = Flag::empty();
    match action {
        ClickAction::AddFlower => {
            next.set_resource_quantity(Flower::MAX);
            next.insert(Flag::FLOWER);
        },
        ClickAction::AddTree => {
            next.set_resource_quantity(Tree::MAX);
            next.insert(Flag::TREE);
        },
        ClickAction::Remove => {},
    }
    proof {
        assert(((0u32 & 0x0000_03ffu32) | (1000u32 << 10u32)) | 0x0000_0001u32 == (0x0000_0001u32
            & 0x0000_03ffu32) | (1000u32 << 10u32)) by (bit_vector);
        assert(((0u32 & 0x0000_03ffu32) | (1000u32 << 10u32)) | 0x0000_0002u32 == (0x0000_0002u32
            & 0x0000_03ffu32) | (1000u32 << 10u32)) by (bit_vector);
    }
    map.set(x, y, next);
    if cheat.0 {
        (true, None)
    } else {
        (true, Some(event))
    }
}

} // verus!
