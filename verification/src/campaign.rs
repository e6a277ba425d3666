use vstd::prelude::*;

verus! {

/// Top-level game mode.
#[derive(Clone, Copy, PartialEq, Eq, Debug, Hash, Structural)]
pub enum AppState {
    Title,
    GalaxyMap,
    /// Brief transition played on the way into or out of a Zerlak sector,
    /// so the jump between map and combat reads as one continuous flight.
    Warp,
    Flight,
    GameOver,
}

impl Default for AppState {
    /// The game starts on the title screen.
    fn default() -> (s: Self)
        ensures
            s == AppState::Title,
    {
        AppState::Title
    }
}

/// Why a run ended, so the game-over screen can say so.
#[derive(Clone, Copy, PartialEq, Eq, Debug, Hash, Structural)]
pub enum DefeatReason {
    OutOfFuel,
    Destroyed,
}

/// Where the warp animation leads once it has played.
#[derive(Clone, Copy, PartialEq, Eq, Debug, Structural)]
pub struct WarpTarget(pub AppState);

impl Default for WarpTarget {
    fn default() -> (w: Self)
        ensures
            w == WarpTarget(AppState::Title),
    {
        WarpTarget(AppState::Title)
    }
}

/// Fuel of a full tank; refuelling never goes past it.
pub const MAX_FUEL: u32 = 100;

/// Hull strength of an undamaged ship.
pub const MAX_HEALTH: u32 = 100;

/// Persistent player and campaign data that survives the transitions
/// between screens, and across a whole run (a new run resets it).
///
/// Fuel and hull are whole units: every cost, refund and hit of the game is
/// a whole number of them.
#[derive(Clone, Copy, Debug)]
pub struct Campaign {
    pub fuel: u32,
    pub health: u32,
    /// The selected galaxy-map sector, as (column, row).
    pub sector: (i32, i32),
    /// Increments each time a galaxy is fully cleared; drives the
    /// difficulty of the next one.
    pub level: u32,
    /// Points for destroyed Zerlak fighters.
    pub score: u32,
    /// Set when a run ends, so the game-over screen can say why.
    pub defeat_reason: Option<DefeatReason>,
}

/// `amount` less `cost`, stopping at zero.
pub open spec fn drained(amount: u32, cost: u32) -> u32 {
    if amount <= cost {
        0
    } else {
        (amount - cost) as u32
    }
}

/// `amount` plus `gain`, stopping at `cap` (when `amount` is not already above it).
pub open spec fn topped_up(amount: u32, gain: u32, cap: u32) -> u32 {
    if amount + gain >= cap {
        cap
    } else {
        (amount + gain) as u32
    }
}

/// `amount - cost`, but never below zero.
pub fn drain(amount: u32, cost: u32) -> (r: u32)
    ensures
        r == drained(amount, cost),
        r as int == if amount as int - cost as int > 0 { amount as int - cost as int } else { 0 },
{
    if amount <= cost {
        0
    } else {
        amount - cost
    }
}

/// `min(amount + gain, cap)`, computed without overflow.
pub fn top_up(amount: u32, gain: u32, cap: u32) -> (r: u32)
    ensures
        r == topped_up(amount, gain, cap),
        r as int == if amount as int + gain as int >= cap as int { cap as int } else { amount + gain },
{
    if amount >= cap || cap - amount <= gain {
        cap
    } else {
        amount + gain
    }
}

impl Campaign {
    /// The state every operation of the game keeps: fuel and hull within
    /// their tanks, and a level counted from one.
    pub open spec fn valid(&self) -> bool {
        &&& self.fuel <= MAX_FUEL
        &&& self.health <= MAX_HEALTH
        &&& self.level >= 1
    }

    /// The campaign at the start of a run.
    pub open spec fn fresh() -> Campaign {
        Campaign {
            fuel: MAX_FUEL,
            health: MAX_HEALTH,
            sector: (0, 0),
            level: 1,
            score: 0,
            defeat_reason: None,
        }
    }
}

impl Default for Campaign {
    /// Full fuel and hull, the home sector selected, level one, no score.
    fn default() -> (c: Self)
        ensures
            c == Campaign::fresh(),
            c.valid(),
    {
        Campaign {
            fuel: MAX_FUEL,
            health: MAX_HEALTH,
            sector: (0, 0),
            level: 1,
            score: 0,
            defeat_reason: None,
        }
    }
}

} // verus!
