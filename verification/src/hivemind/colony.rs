//! Colonies and the state machine of their drones.

use vstd::prelude::*;
use crate::world::flag::{Flag, FlagType};
use crate::world::map::{lemma_cell_index, Colony, GridMap, GridPos};

verus! {

/// Settings of the colonies. Times are in milliseconds.
#[derive(Debug)]
pub struct Config {
    /// How many drones a colony starts with.
    pub starting: usize,
    /// The largest number of drones.
    pub max: usize,
    /// The period of a colony's spawn clock.
    pub spawn_rate: u32,
    /// What a colony pays for a drone.
    pub drone_cost: u32,
    pub location_y: GridPos,
    pub location_m: GridPos,
    pub location_c: GridPos,
}

impl Config {
    pub fn default() -> (config: Config)
        ensures
            config.starting == 1,
            config.max == 10000,
            config.spawn_rate == 1000,
            config.drone_cost == 9,
            config.location_y == (GridPos { x: 25, y: 25 }),
            config.location_c == (GridPos { x: 50, y: 25 }),
            config.location_m == (GridPos { x: 25, y: 50 }),
    {
        Config {
            starting: 1,
            max: 10000,
            spawn_rate: 1000,
            drone_cost: 9,
            location_y: GridPos::new(25, 25),
            location_c: GridPos::new(50, 25),
            location_m: GridPos::new(25, 50),
        }
    }

    /// Where the colony with identity `colony` stands. Only a single
    /// identity has a place.
    pub fn location_of(&self, colony: FlagType) -> (place: Option<GridPos>)
        ensures
            place == if colony == Flag::COLONY_Y {
                Some(self.location_y)
            } else if colony == Flag::COLONY_M {
                Some(self.location_m)
            } else if colony == Flag::COLONY_C {
                Some(self.location_c)
            } else {
                None
            },
    {
        if colony == Flag::COLONY_Y {
            Some(self.location_y)
        } else if colony == Flag::COLONY_M {
            Some(self.location_m)
        } else if colony == Flag::COLONY_C {
            Some(self.location_c)
        } else {
            None
        }
    }
}

/// What a drone knows beside its place and its heading.
#[derive(Debug, Clone, Copy, PartialEq, Eq, Structural)]
pub struct Drone {
    /// Whether the drone follows no signal at the moment.
    pub autonomy: bool,
}

impl Drone {
    pub fn new() -> (drone: Drone)
        ensures
            drone.autonomy == false,
    {
        Drone { autonomy: false }
    }
}

#[derive(Debug, Clone, Copy, PartialEq, Eq, Structural)]
pub enum DroneState {
    ToHome,
    ToHomeNoFood,
    ToFood,
    Exploring,
    Gathering,
    Depositing,
    Resting,
    Dead,
}

/// The signal that a drone steers by.
#[derive(Debug, Clone, Copy, PartialEq, Eq, Structural)]
pub enum Signal {
    /// Toward home, away from crowds.
    Home,
    /// Up the food field, along the attractor, against the repellent, away
    /// from crowds.
    Food,
    /// Up the food field, away from crowds.
    Explore,
    /// None: the drone does not move by signal this tick.
    Quiet,
}

/// What a drone's state asks of the grid.
#[derive(Debug, Clone, Copy, PartialEq, Eq, Structural)]
pub enum Feedback {
    Gather,
    Deposit,
    Nothing,
}

/// What a drone's state leaves in the vector fields.
#[derive(Debug, Clone, Copy, PartialEq, Eq, Structural)]
pub enum Trace {
    /// The reverse of its heading, added to the attractor field.
    Attract,
    /// Its heading, added to the repellent field.
    Repel,
    Nothing,
}

impl DroneState {
    /// The state after a tick on `cell`, for a drone whose autonomy is
    /// `autonomy`.
    pub open spec fn after(self, cell: Flag, autonomy: bool) -> DroneState {
        match self {
            DroneState::ToHome => if cell.has(Flag::COLONY_ALL) {
                DroneState::Depositing
            } else {
                DroneState::ToHome
            },
            DroneState::ToHomeNoFood => if cell.has(Flag::COLONY_ALL) {
                DroneState::Resting
            } else {
                DroneState::ToHomeNoFood
            },
            DroneState::ToFood => if cell.has(Flag::HIVE_FOOD) {
                DroneState::Gathering
            } else if autonomy {
                DroneState::Exploring
            } else {
                DroneState::ToFood
            },
            DroneState::Exploring => if autonomy {
                DroneState::Exploring
            } else {
                DroneState::ToFood
            },
            DroneState::Gathering => if cell.has(Flag::HIVE_FOOD) {
                DroneState::ToHome
            } else {
                DroneState::ToHomeNoFood
            },
            DroneState::Depositing => DroneState::ToFood,
            DroneState::Resting => DroneState::ToFood,
            DroneState::Dead => DroneState::Dead,
        }
    }

    /// The state after a tick on `cell`.
    pub fn next(self, cell: Flag, autonomy: bool) -> (state: DroneState)
        ensures
            state == self.after(cell, autonomy),
    {
        match self {
            DroneState::ToHome => if cell.intersects(Flag::COLONY_ALL) {
                DroneState::Depositing
            } else {
                DroneState::ToHome
            },
            DroneState::ToHomeNoFood => if cell.intersects(Flag::COLONY_ALL) {
                DroneState::Resting
            } else {
                DroneState::ToHomeNoFood
            },
            DroneState::ToFood => if cell.intersects(Flag::HIVE_FOOD) {
                DroneState::Gathering
            } else if autonomy {
                DroneState::Exploring
            } else {
                DroneState::ToFood
            },
            DroneState::Exploring => if autonomy {
                DroneState::Exploring
            } else {
                DroneState::ToFood
            },
            DroneState::Gathering => if cell.intersects(Flag::HIVE_FOOD) {
                DroneState::ToHome
            } else {
                DroneState::ToHomeNoFood
            },
            DroneState::Depositing => DroneState::ToFood,
            DroneState::Resting => DroneState::ToFood,
            DroneState::Dead => DroneState::Dead,
        }
    }

    /// The signal that a drone in this state steers by.
    pub fn signal(self) -> (signal: Signal)
        ensures
            signal == match self {
                DroneState::ToHome | DroneState::ToHomeNoFood => Signal::Home,
                DroneState::ToFood => Signal::Food,
                DroneState::Exploring => Signal::Explore,
                _ => Signal::Quiet,
            },
    {
        match self {
            DroneState::ToHome => Signal::Home,
            DroneState::ToHomeNoFood => Signal::Home,
            DroneState::ToFood => Signal::Food,
            DroneState::Exploring => Signal::Explore,
            DroneState::Gathering => Signal::Quiet,
            DroneState::Depositing => Signal::Quiet,
            DroneState::Resting => Signal::Quiet,
            DroneState::Dead => Signal::Quiet,
        }
    }

    /// What a drone in this state asks of the grid: a gathering drone
    /// gathers, a depositing one deposits.
    pub fn feedback(self) -> (feedback: Feedback)
        ensures
            feedback == match self {
                DroneState::Gathering => Feedback::Gather,
                DroneState::Depositing => Feedback::Deposit,
                _ => Feedback::Nothing,
            },
    {
        match self {
            DroneState::Gathering => Feedback::Gather,
            DroneState::Depositing => Feedback::Deposit,
            _ => Feedback::Nothing,
        }
    }

    /// What a drone in this state leaves in the vector fields: one that
    /// carries food home attracts, one that goes home without repels.
    pub fn trace(self) -> (trace: Trace)
        ensures
            trace == match self {
                DroneState::ToHome => Trace::Attract,
                DroneState::ToHomeNoFood => Trace::Repel,
                _ => Trace::Nothing,
            },
    {
        match self {
            DroneState::ToHome => Trace::Attract,
            DroneState::ToHomeNoFood => Trace::Repel,
            _ => Trace::Nothing,
        }
    }

    /// The autonomy of a drone that has a signal, once its new state is
    /// known. A drone seeking food is on its own where the signal is weak;
    /// an exploring one where both the food field and the attractor are
    /// weak; any other follows.
    pub fn autonomy(self, signal_weak: bool, food_strong: bool, attractor_strong: bool) -> (free:
        bool)
        ensures
            free == match self {
                DroneState::ToFood => signal_weak,
                DroneState::Exploring => !(food_strong || attractor_strong),
                _ => false,
            },
    {
        match self {
            DroneState::ToFood => signal_weak,
            DroneState::Exploring => !(food_strong || attractor_strong),
            _ => false,
        }
    }

    /// The picture of a drone: one more for a drone that faces left, two
    /// more for one that carries food home.
    pub fn sprite_index(self, face_left: bool) -> (index: usize)
        ensures
            index == (if face_left { 1int } else { 0int }) + (if self == DroneState::ToHome {
                2int
            } else {
                0int
            }),
    {
        let mut idx: usize = 0;
        if face_left {
            idx += 1;
        }
        if matches!(self, DroneState::ToHome) {
            idx += 2;
        }
        idx
    }
}

/// How a drone that stands in a wall gets out.
#[derive(Debug, Clone, Copy, PartialEq, Eq, Structural)]
pub enum Escape {
    /// It stands in no wall.
    Free,
    /// One step back along its heading took it out.
    Nudged,
    /// One step back did not: it is pushed ten steps further and sits the
    /// tick out.
    Shoved,
}

/// How a drone on `cell` gets out of a wall; `after` is the cell one step
/// back along its heading, where that is in the grid.
pub fn escape(cell: Flag, after: Option<Flag>) -> (escape: Escape)
    ensures
        escape == if !cell.has(Flag::WALL) {
            Escape::Free
        } else if after is Some && after->0.has(Flag::WALL) {
            Escape::Shoved
        } else {
            Escape::Nudged
        },
{
    if !cell.intersects(Flag::WALL) {
        Escape::Free
    } else {
        match after {
            Some(c) => if c.intersects(Flag::WALL) {
                Escape::Shoved
            } else {
                Escape::Nudged
            },
            None => Escape::Nudged,
        }
    }
}

/// Where a drone ends its move.
#[derive(Debug, Clone, Copy, PartialEq, Eq, Structural)]
pub enum Landing {
    /// On the cell it headed for.
    Advance,
    /// It hit a wall: it turns round and moves one step the other way.
    Bounce,
    /// It headed out of the grid and stays where it is.
    Stay,
}

/// Where a drone ends its move, for the cell it heads for.
pub fn landing(dest: Option<Flag>) -> (landing: Landing)
    ensures
        landing == match dest {
            Some(cell) => if cell.has(Flag::WALL) {
                Landing::Bounce
            } else {
                Landing::Advance
            },
            None => Landing::Stay,
        },
{
    match dest {
        Some(cell) => if cell.intersects(Flag::WALL) {
            Landing::Bounce
        } else {
            Landing::Advance
        },
        None => Landing::Stay,
    }
}

/// The cell of a new colony: what was there, the colony's identity, and a
/// full store.
pub open spec fn founded(cell: Flag, colony: FlagType) -> Flag {
    (Flag { bits: cell.bits | colony }).with_quantity(Colony::MAX)
}

/// Founds a colony of identity `colony` at column `x`, row `y`. A colony
/// without an identity, or with bits that are none, or one outside the
/// grid, is not founded: the grid stays as it is and the answer is `false`.
pub fn found_colony<const W: usize, const H: usize>(
    map: &mut GridMap<W, H>,
    x: usize,
    y: usize,
    colony: FlagType,
) -> (done: bool)
    requires
        old(map).wf(),
    ensures
        final(map).wf(),
        done == (GridMap::<W, H>::in_bounds(x as int, y as int) && colony != 0 && colony
            & !Flag::COLONY_ALL == 0),
        done ==> final(map)@ == old(map)@.update(
            y * W + x,
            founded(old(map).at(x as int, y as int), colony),
        ),
        !done ==> final(map)@ == old(map)@,
{
    if colony == 0 || colony & !Flag::COLONY_ALL != 0 {
        return false;
    }
    match map.get(x, y) {
        Some(cell) => {
            let mut next = cell;
            next.insert(colony);
            next.set_resource_quantity(Colony::MAX);
            map.set(x, y, next)
        },
        None => false,
    }
}

/// What a firing of a colony's spawn clock came to.
#[derive(Debug, Clone, Copy, PartialEq, Eq, Structural)]
pub enum ColonyEvent {
    /// The colony paid for a drone, which is to be spawned exploring at the
    /// colony's position.
    Spawned,
    /// Nothing was left: the colony is gone and the game is over.
    Destroyed,
    /// Nothing was left, but colonies do not die: the game is over all the
    /// same.
    Starved,
    /// The position is outside the grid; nothing was done.
    Missing,
}

/// The cell of a colony after a firing. A colony with something left pays
/// `cost`, or all it has where that is less. One with nothing left is
/// cleared, unless `cheat` keeps it.
pub open spec fn fired_cell(cell: Flag, cost: u32, cheat: bool) -> Flag {
    if cell.quantity() > cost {
        cell.with_quantity((cell.quantity() - cost) as u32)
    } else if cell.quantity() > 0 {
        cell.with_quantity(0)
    } else if cheat {
        cell
    } else {
        Flag { bits: Flag::EMPTY }
    }
}

/// What a firing comes to for a colony on `cell`.
pub open spec fn fired_event(cell: Flag, cheat: bool) -> ColonyEvent {
    if cell.quantity() > 0 {
        ColonyEvent::Spawned
    } else if cheat {
        ColonyEvent::Starved
    } else {
        ColonyEvent::Destroyed
    }
}

/// One firing of the spawn clock of the colony at column `x`, row `y`.
pub fn update_colony<const W: usize, const H: usize>(
    map: &mut GridMap<W, H>,
    x: usize,
    y: usize,
    drone_cost: u32,
    cheat: bool,
) -> (event: ColonyEvent)
    requires
        old(map).wf(),
    ensures
        final(map).wf(),
        !GridMap::<W, H>::in_bounds(x as int, y as int) ==> event == ColonyEvent::Missing,
        !GridMap::<W, H>::in_bounds(x as int, y as int) ==> final(map)@ == old(map)@,
        GridMap::<W, H>::in_bounds(x as int, y as int) ==> event == fired_event(
            old(map).at(x as int, y as int),
            cheat,
        ) && final(map)@ == old(map)@.update(
            y * W + x,
            fired_cell(old(map).at(x as int, y as int), drone_cost, cheat),
        ),
{
    let cell = match map.get(x, y) {
        Some(c) => c,
        None => {
            return ColonyEvent::Missing;
        },
    };
    let resource = cell.get_resource_quantity();
    if resource > 0 {
        let paid = if resource < drone_cost {
            resource
        } else {
            drone_cost
        };
        let mut next = cell;
        next.set_resource_quantity(resource - paid);
        map.set(x, y, next);
        ColonyEvent::Spawned
    } else if cheat {
        proof {
            lemma_cell_index(x as int, y as int, W as int, H as int);
            assert(map@ =~= map@.update(y * W + x, cell));
        }
        ColonyEvent::Starved
    } else {
        map.set(x, y, Flag::empty());
        ColonyEvent::Destroyed
    }
}

/// The cell of a colony after `firings` firings.
pub open spec fn fired_times(cell: Flag, cost: u32, cheat: bool, firings: nat) -> Flag
    decreases firings,
{
    if firings == 0 {
        cell
    } else {
        fired_cell(fired_times(cell, cost, cheat, (firings - 1) as nat), cost, cheat)
    }
}

/// How many firings a store of `resource` pays for at `cost` each: the
/// quotient, rounded up.
pub open spec fn paid_firings(resource: u32, cost: u32) -> nat {
    ((resource + cost - 1) / (cost as int)) as nat
}

/// While a colony has something left, each firing spawns a drone and takes
/// the cost from the store.
pub proof fn lemma_colony_pays(cell: Flag, cost: u32, cheat: bool, firings: nat)
    requires
        cost > 0,
        firings * cost < cell.quantity(),
    ensures
        fired_times(cell, cost, cheat, firings).quantity() == cell.quantity() - firings * cost,
        fired_times(cell, cost, cheat, firings).kind() == cell.kind(),
        fired_event(fired_times(cell, cost, cheat, firings), cheat) == ColonyEvent::Spawned,
    decreases firings,
{
    if firings > 0 {
        assert((firings - 1) * cost == firings * cost - cost) by (nonlinear_arith);
        lemma_colony_pays(cell, cost, cheat, (firings - 1) as nat);
        let before = fired_times(cell, cost, cheat, (firings - 1) as nat);
        assert(before.quantity() > cost);
        crate::world::flag::lemma_quantity_bound(before);
        crate::world::flag::lemma_quantity_round_trip(before, (before.quantity() - cost) as u32);
    } else {
        assert(0 * cost == 0) by (nonlinear_arith);
    }
}

/// A colony that starts with a store of `R` and pays `C` for a drone spawns
/// a drone at each of its first `ceil(R / C)` firings, after which its
/// store is zero. The firing after those destroys it, and clears its cell,
/// where colonies can die; where they cannot, no firing ever destroys it.
pub proof fn lemma_colony_depletion(cell: Flag, cost: u32, cheat: bool, firings: nat)
    requires
        cost > 0,
    ensures
        firings < paid_firings(cell.quantity(), cost) ==> fired_event(
            fired_times(cell, cost, cheat, firings),
            cheat,
        ) == ColonyEvent::Spawned,
        fired_times(cell, cost, cheat, paid_firings(cell.quantity(), cost)).quantity() == 0,
        !cheat ==> fired_event(
            fired_times(cell, cost, cheat, paid_firings(cell.quantity(), cost)),
            cheat,
        ) == ColonyEvent::Destroyed,
        !cheat ==> fired_times(cell, cost, cheat, paid_firings(cell.quantity(), cost) + 1).bits
            == Flag::EMPTY,
        cheat ==> fired_event(fired_times(cell, cost, cheat, firings), cheat)
            != ColonyEvent::Destroyed,
{
    let r = cell.quantity() as int;
    let c = cost as int;
    let n = paid_firings(cell.quantity(), cost);
    lemma_paid_firings(r, c);
    if firings < n {
        assert(firings * c < r) by (nonlinear_arith)
            requires
                firings <= n - 1,
                (n - 1) * c < r,
                c > 0,
        ;
        lemma_colony_pays(cell, cost, cheat, firings);
    }
    if n > 0 {
        lemma_colony_pays(cell, cost, cheat, (n - 1) as nat);
        let before = fired_times(cell, cost, cheat, (n - 1) as nat);
        assert(before.quantity() == r - (n - 1) * c);
        assert(before.quantity() <= c) by (nonlinear_arith)
            requires
                before.quantity() == r - (n - 1) * c,
                r <= n * c,
        ;
        if before.quantity() > cost {
        } else {
            crate::world::flag::lemma_quantity_round_trip(before, 0);
        }
    } else {
        assert(r == 0);
    }
    assert(fired_times(cell, cost, cheat, n + 1) == fired_cell(
        fired_times(cell, cost, cheat, n),
        cost,
        cheat,
    ));
}

/// The rounded-up quotient `n` of `r` by `c` is the least number with
/// `r <= n * c`.
proof fn lemma_paid_firings(r: int, c: int)
    requires
        r >= 0,
        c > 0,
    ensures
        r <= ((r + c - 1) / c) * c,
        (r + c - 1) / c > 0 ==> ((r + c - 1) / c - 1) * c < r,
        (r + c - 1) / c >= 0,
        r == 0 <==> (r + c - 1) / c == 0,
{
    let n = (r + c - 1) / c;
    vstd::arithmetic::div_mod::lemma_fundamental_div_mod(r + c - 1, c);
    assert(0 <= (r + c - 1) % c < c) by (nonlinear_arith)
        requires
            c > 0,
    ;
    assert(c * n == n * c) by (nonlinear_arith);
    assert((n - 1) * c == n * c - c) by (nonlinear_arith);
    if n <= 0 {
        assert(n * c <= 0) by (nonlinear_arith)
            requires
                n <= 0,
                c > 0,
        ;
    }
}

} // verus!
