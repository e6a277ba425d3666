use vstd::prelude::*;
use crate::campaign::{drain, drained, AppState, Campaign, DefeatReason, WarpTarget};
use crate::galaxy::{GalaxyGrid, SectorKind};

verus! {

/// Flat score award per destroyed fighter.
pub const SCORE_PER_KILL: u32 = 100;

/// Fuel lost when a fighter gets past the canopy.
pub const BREACH_FUEL: u32 = 10;

/// Hull lost to a landed enemy laser.
pub const LASER_DAMAGE: u32 = 16;

/// Fighters in a level-zero sector; each level adds one.
pub const BASE_ENEMY_COUNT: u32 = 5;

/// A sector never holds more fighters than this.
pub const MAX_ENEMY_COUNT: u32 = 16;

/// Enemy approach speed on level one, in percent of the base speed.
pub const BASE_SPEED_PERCENT: u32 = 100;

/// Speed added per level after the first, in percent of the base speed.
pub const SPEED_PERCENT_PER_LEVEL: u32 = 8;

/// Enemies never approach faster than twice the base speed.
pub const MAX_SPEED_PERCENT: u32 = 200;

/// Fighters in a sector of the given level.
pub open spec fn enemy_count_for(level: u32) -> int {
    if BASE_ENEMY_COUNT + level >= MAX_ENEMY_COUNT {
        MAX_ENEMY_COUNT as int
    } else {
        BASE_ENEMY_COUNT + level
    }
}

/// Enemy speed, in percent of the base speed, on the given level.
pub open spec fn speed_percent_for(level: u32) -> int {
    let steps: int = if level >= 1 { level - 1 } else { 0 };
    if BASE_SPEED_PERCENT + SPEED_PERCENT_PER_LEVEL * steps >= MAX_SPEED_PERCENT {
        MAX_SPEED_PERCENT as int
    } else {
        BASE_SPEED_PERCENT + SPEED_PERCENT_PER_LEVEL * steps
    }
}

/// Per-level difficulty knobs, computed once on entering a sector.
#[derive(Clone, Copy, PartialEq, Eq, Debug, Structural)]
pub struct Difficulty {
    /// Fighters to destroy to clear the sector.
    pub enemy_count: u32,
    /// Enemy approach speed, in percent of the base speed.
    pub speed_percent: u32,
}

impl Difficulty {
    /// One more fighter per level, up to `MAX_ENEMY_COUNT`; eight percent
    /// more speed per level after the first, up to twice the base speed.
    pub fn for_level(level: u32) -> (d: Difficulty)
        requires
            level <= u32::MAX - BASE_ENEMY_COUNT,
        ensures
            d.enemy_count == enemy_count_for(level),
            d.speed_percent == speed_percent_for(level),
    {
        let enemy_count = if level >= MAX_ENEMY_COUNT - BASE_ENEMY_COUNT {
            MAX_ENEMY_COUNT
        } else {
            BASE_ENEMY_COUNT + level
        };
        let steps = if level >= 1 { level - 1 } else { 0 };
        let speed_percent = if steps >= 13 {
            MAX_SPEED_PERCENT
        } else {
            BASE_SPEED_PERCENT + SPEED_PERCENT_PER_LEVEL * steps
        };
        Difficulty { enemy_count, speed_percent }
    }
}

/// Whether the spawn timer may bring in another fighter: only while fewer
/// are alive than remain to be destroyed.
pub fn should_spawn(alive: u32, remaining: u32) -> (spawn: bool)
    ensures
        spawn == (alive < remaining),
{
    alive < remaining
}

/// The campaign after a fighter gets past the canopy.
pub open spec fn after_breach(c: Campaign) -> Campaign {
    let fuel = drained(c.fuel, BREACH_FUEL);
    Campaign {
        fuel,
        defeat_reason: if fuel == 0 {
            Some(DefeatReason::OutOfFuel)
        } else {
            c.defeat_reason
        },
        ..c
    }
}

/// The campaign after an enemy laser lands.
pub open spec fn after_laser_hit(c: Campaign) -> Campaign {
    let health = drained(c.health, LASER_DAMAGE);
    Campaign {
        health,
        defeat_reason: if health == 0 {
            Some(DefeatReason::Destroyed)
        } else {
            c.defeat_reason
        },
        ..c
    }
}

/// A fighter got past the canopy: it costs fuel, and when the fuel is gone
/// the run ends, out of fuel. Returns the screen to switch to, if any.
pub fn enemy_reached_canopy(campaign: &mut Campaign) -> (next: Option<AppState>)
    ensures
        *final(campaign) == after_breach(*old(campaign)),
        next == (if final(campaign).fuel == 0 { Some(AppState::GameOver) } else { None }),
{
    campaign.fuel = drain(campaign.fuel, BREACH_FUEL);
    if campaign.fuel == 0 {
        campaign.defeat_reason = Some(DefeatReason::OutOfFuel);
        return Some(AppState::GameOver);
    }
    None
}

/// An enemy laser landed on the crosshair: it costs hull, and when the hull
/// is gone the ship is destroyed. Returns the screen to switch to, if any.
pub fn laser_hit(campaign: &mut Campaign) -> (next: Option<AppState>)
    ensures
        *final(campaign) == after_laser_hit(*old(campaign)),
        next == (if final(campaign).health == 0 { Some(AppState::GameOver) } else { None }),
{
    campaign.health = drain(campaign.health, LASER_DAMAGE);
    if campaign.health == 0 {
        campaign.defeat_reason = Some(DefeatReason::Destroyed);
        return Some(AppState::GameOver);
    }
    None
}

/// What one shot does to the campaign, the sectors, the fighters remaining,
/// the warp target and the next screen: a hit scores a kill and counts a
/// fighter off (never below zero); once no fighter remains the campaign's
/// sector is recorded cleared and the ship warps back to the galaxy map,
/// otherwise nothing else changes.
pub open spec fn shot_resolved(
    c: Campaign,
    m: Map<(i32, i32), SectorKind>,
    remaining: u32,
    w: WarpTarget,
    hit: bool,
) -> (Campaign, Map<(i32, i32), SectorKind>, u32, WarpTarget, Option<AppState>) {
    let c2 = Campaign {
        score: if hit { (c.score + SCORE_PER_KILL) as u32 } else { c.score },
        ..c
    };
    let r2: u32 = if hit && remaining > 0 { (remaining - 1) as u32 } else { remaining };
    if r2 == 0 {
        (c2, m.insert(c.sector, SectorKind::Cleared), r2, WarpTarget(AppState::GalaxyMap), Some(AppState::Warp))
    } else {
        (c2, m, r2, w, None)
    }
}

/// The bookkeeping of one shot: a hit scores a kill and counts a fighter
/// off; once no fighter remains the sector is cleared and the ship warps
/// back to the galaxy map. Returns the screen to switch to, if any.
pub fn resolve_shot(
    campaign: &mut Campaign,
    grid: &mut GalaxyGrid,
    remaining: &mut u32,
    warp_target: &mut WarpTarget,
    hit: bool,
) -> (next: Option<AppState>)
    requires
        hit ==> old(campaign).score <= u32::MAX - SCORE_PER_KILL,
    ensures
        final(grid).side() == old(grid).side(),
        (*final(campaign), final(grid)@, *final(remaining), *final(warp_target), next) == shot_resolved(
            *old(campaign),
            old(grid)@,
            *old(remaining),
            *old(warp_target),
            hit,
        ),
{
    if hit {
        campaign.score = campaign.score + SCORE_PER_KILL;
        if *remaining > 0 {
            *remaining = *remaining - 1;
        }
    }
    if *remaining == 0 {
        let (x, y) = campaign.sector;
        grid.insert(x, y, SectorKind::Cleared);
        *warp_target = WarpTarget(AppState::GalaxyMap);
        return Some(AppState::Warp);
    }
    None
}

} // verus!
