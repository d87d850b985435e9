//! The player's stock of placements, and the events that change it.

use vstd::prelude::*;

verus! {

/// What the player has left to place: flowers, trees and removals.
#[derive(Debug, Clone, Copy, PartialEq, Eq, Structural)]
pub struct GameState {
    pub flower_ammo: u8,
    pub tree_ammo: u8,
    pub delete_ammo: u8,
}

impl GameState {
    pub const MAX_AMMO: u8 = 3;
}

impl Default for GameState {
    fn default() -> (state: GameState)
        ensures
            state.flower_ammo == GameState::MAX_AMMO,
            state.tree_ammo == GameState::MAX_AMMO,
            state.delete_ammo == GameState::MAX_AMMO,
    {
        GameState {
            flower_ammo: GameState::MAX_AMMO,
            tree_ammo: GameState::MAX_AMMO,
            delete_ammo: GameState::MAX_AMMO,
        }
    }
}

/// A change to one byte.
#[derive(Debug, Clone, Copy, PartialEq, Eq, Structural)]
pub enum ByteOp {
    Increment,
    Decrement,
    /// Replace the byte by this value.
    Assign(u8),
}

/// A change of the speed of play.
#[derive(Debug, Clone, Copy, PartialEq, Eq, Structural)]
pub enum SpeedOp {
    Toggle,
}

#[derive(Debug, Clone, Copy, PartialEq, Eq, Structural)]
pub enum GameEvent {
    Flower(ByteOp),
    Tree(ByteOp),
    Delete(ByteOp),
    SpeedChange(SpeedOp),
}

/// What the display is to show anew.
#[derive(Debug, Clone, Copy, PartialEq, Eq, Structural)]
pub enum HudUpdateEvent {
    FlowerMeter(u8),
    TreeMeter(u8),
    DeleteMeter(u8),
    SpeedChange(usize),
}

impl ByteOp {
    /// Whether the change can be made to `operand` without leaving the
    /// range of a byte.
    pub open spec fn fits(self, operand: u8) -> bool {
        match self {
            ByteOp::Increment => operand < u8::MAX,
            ByteOp::Decrement => operand > 0,
            ByteOp::Assign(_) => true,
        }
    }

    /// The byte after the change.
    pub open spec fn applied(self, operand: u8) -> u8 {
        match self {
            ByteOp::Increment => (operand + 1) as u8,
            ByteOp::Decrement => (operand - 1) as u8,
            ByteOp::Assign(val) => val,
        }
    }

    /// Whether the change can be made to `operand`.
    pub fn in_range(&self, operand: u8) -> (fits: bool)
        ensures
            fits == self.fits(operand),
    {
        match self {
            ByteOp::Increment => operand < u8::MAX,
            ByteOp::Decrement => operand > 0,
            ByteOp::Assign(_) => true,
        }
    }

    /// Makes the change to `operand` and returns the new value.
    pub fn operate(&self, operand: &mut u8) -> (value: u8)
        requires
            self.fits(*old(operand)),
        ensures
            *final(operand) == self.applied(*old(operand)),
            value == *final(operand),
    {
        match self {
            ByteOp::Increment => {
                *operand = *operand + 1;
            },
            ByteOp::Decrement => {
                *operand = *operand - 1;
            },
            ByteOp::Assign(val) => {
                *operand = *val;
            },
        }
        *operand
    }
}

/// The picture of the speed buttons after a toggle: play is picked where
/// the game was paused, pause where it was not.
pub fn toggle(paused: bool) -> (picked: usize)
    ensures
        picked == if paused { 3usize } else { 1usize },
{
    if paused {
        3
    } else {
        1
    }
}

/// The events of a reload: one more of each stock that is not full, in the
/// order flower, tree, removal.
pub open spec fn reloads(state: GameState) -> Seq<GameEvent> {
    (if state.flower_ammo < GameState::MAX_AMMO {
        seq![GameEvent::Flower(ByteOp::Increment)]
    } else {
        Seq::empty()
    }) + (if state.tree_ammo < GameState::MAX_AMMO {
        seq![GameEvent::Tree(ByteOp::Increment)]
    } else {
        Seq::empty()
    }) + (if state.delete_ammo < GameState::MAX_AMMO {
        seq![GameEvent::Delete(ByteOp::Increment)]
    } else {
        Seq::empty()
    })
}

/// The events of a reload.
pub fn reload(game_state: &GameState) -> (events: Vec<GameEvent>)
    ensures
        events@ == reloads(*game_state),
{
    let mut events: Vec<GameEvent> = Vec::new();
    if game_state.flower_ammo < GameState::MAX_AMMO {
        events.push(GameEvent::Flower(ByteOp::Increment));
    }
    if game_state.tree_ammo < GameState::MAX_AMMO {
        events.push(GameEvent::Tree(ByteOp::Increment));
    }
    if game_state.delete_ammo < GameState::MAX_AMMO {
        events.push(GameEvent::Delete(ByteOp::Increment));
    }
    assert(events@ =~= reloads(*game_state));
    events
}

/// Whether `event` can be applied to `state` without a stock leaving the
/// range of a byte.
pub open spec fn applies(state: GameState, event: GameEvent) -> bool {
    match event {
        GameEvent::Flower(op) => op.fits(state.flower_ammo),
        GameEvent::Tree(op) => op.fits(state.tree_ammo),
        GameEvent::Delete(op) => op.fits(state.delete_ammo),
        GameEvent::SpeedChange(_) => true,
    }
}

/// Whether `event` can be applied to the stock.
pub fn accepts(game_state: &GameState, event: GameEvent) -> (fits: bool)
    ensures
        fits == applies(*game_state, event),
{
    match event {
        GameEvent::Flower(op) => op.in_range(game_state.flower_ammo),
        GameEvent::Tree(op) => op.in_range(game_state.tree_ammo),
        GameEvent::Delete(op) => op.in_range(game_state.delete_ammo),
        GameEvent::SpeedChange(_) => true,
    }
}

/// The stock after `event`.
pub open spec fn after_event(state: GameState, event: GameEvent) -> GameState {
    match event {
        GameEvent::Flower(op) => GameState { flower_ammo: op.applied(state.flower_ammo), ..state },
        GameEvent::Tree(op) => GameState { tree_ammo: op.applied(state.tree_ammo), ..state },
        GameEvent::Delete(op) => GameState { delete_ammo: op.applied(state.delete_ammo), ..state },
        GameEvent::SpeedChange(_) => state,
    }
}

/// Applies `event` to the stock and says what the display is to show: the
/// new count of the stock that changed, or the speed button picked by a
/// toggle of a game that was paused or not.
pub fn handle_game_events(game_state: &mut GameState, paused: bool, event: GameEvent) -> (shown:
    HudUpdateEvent)
    requires
        applies(*old(game_state), event),
    ensures
        *final(game_state) == after_event(*old(game_state), event),
        shown == match event {
            GameEvent::Flower(_) => HudUpdateEvent::FlowerMeter(final(game_state).flower_ammo),
            GameEvent::Tree(_) => HudUpdateEvent::TreeMeter(final(game_state).tree_ammo),
            GameEvent::Delete(_) => HudUpdateEvent::DeleteMeter(final(game_state).delete_ammo),
            GameEvent::SpeedChange(_) => HudUpdateEvent::SpeedChange(
                if paused { 3usize } else { 1usize },
            ),
        },
{
    match event {
        GameEvent::Flower(op) => {
            let mut ammo: u8 = game_state.flower_ammo;
            let value = op.operate(&mut ammo);
            game_state.flower_ammo = ammo;
            HudUpdateEvent::FlowerMeter(value)
        },
        GameEvent::Tree(op) => {
            let mut ammo: u8 = game_state.tree_ammo;
            let value = op.operate(&mut ammo);
            game_state.tree_ammo = ammo;
            HudUpdateEvent::TreeMeter(value)
        },
        GameEvent::Delete(op) => {
            let mut ammo: u8 = game_state.delete_ammo;
            let value = op.operate(&mut ammo);
            game_state.delete_ammo = ammo;
            HudUpdateEvent::DeleteMeter(value)
        },
        GameEvent::SpeedChange(op) => match op {
            SpeedOp::Toggle => HudUpdateEvent::SpeedChange(toggle(paused)),
        },
    }
}

/// The hours, minutes and seconds that a clock shows after `seconds`
/// seconds of play.
pub fn game_time(seconds: u64) -> (face: (u64, u64, u64))
    ensures
        face.0 == seconds / 3600,
        face.1 == (seconds / 60) % 60,
        face.2 == seconds % 60,
{
    (seconds / 3600, (seconds / 60) % 60, seconds % 60)
}

} // verus!
