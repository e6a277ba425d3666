use vstd::prelude::*;
use crate::campaign::{drained, topped_up, AppState, Campaign, DefeatReason, WarpTarget, MAX_FUEL};
use crate::flight::{
    after_breach, after_laser_hit, shot_resolved, enemy_count_for, SCORE_PER_KILL, speed_percent_for, BREACH_FUEL, LASER_DAMAGE,
    MAX_ENEMY_COUNT, MAX_SPEED_PERCENT,
};
use crate::galaxy::{
    sector_for_roll, FRIENDLY_PERMILLE, generated_for, grid_side_for, in_grid, is_neighbor, is_spread, zerlak_permille_for, SectorKind,
    MAX_GRID_SIZE, MAX_ZERLAK_PERMILLE,
};
use crate::galaxy_map::{after_arrows, resolved, stepped, Direction, LEVEL_CLEAR_REFUEL, ZERLAK_WARP_FUEL};

verus! {

/// Choosing a sector keeps the tanks in range: fuel and hull never pass
/// their maximum and the level stays counted from one.
pub proof fn law_sector_choice_keeps_campaign_valid(
    c: Campaign,
    m: Map<(i32, i32), SectorKind>,
    w: WarpTarget,
)
    requires
        c.valid(),
    ensures
        resolved(c, m, w).0.valid(),
{
}

/// Combat keeps the tanks in range: a fighter past the canopy and a landed
/// laser only ever take fuel and hull away, never below zero.
pub proof fn law_combat_keeps_campaign_valid(c: Campaign)
    requires
        c.valid(),
    ensures
        after_breach(c).valid(),
        after_laser_hit(c).valid(),
        after_breach(c).fuel <= c.fuel,
        after_laser_hit(c).health <= c.health,
{
}

/// Starting the next level keeps the tanks in range: the refuel stops at a
/// full tank.
pub proof fn law_level_refuel_keeps_campaign_valid(c: Campaign)
    requires
        c.valid(),
        c.level < u32::MAX,
    ensures
        (Campaign {
            level: (c.level + 1) as u32,
            sector: (0, 0),
            fuel: topped_up(c.fuel, LEVEL_CLEAR_REFUEL, MAX_FUEL),
            ..c
        }).valid(),
{
}

/// The run ends out of fuel exactly when a sector choice leaves the tank
/// empty, and the game-over screen then names the empty tank as the reason.
pub proof fn law_out_of_fuel_ends_the_run(c: Campaign, m: Map<(i32, i32), SectorKind>, w: WarpTarget)
    requires
        m.dom().contains(c.sector),
    ensures
        (resolved(c, m, w).3 == Some(AppState::GameOver)) <==> resolved(c, m, w).0.fuel == 0,
        resolved(c, m, w).0.fuel == 0 ==> resolved(c, m, w).0.defeat_reason == Some(
            DefeatReason::OutOfFuel,
        ),
{
}

/// A cleared sector stays cleared: once an outpost or empty sector has been
/// chosen (and the run goes on), choosing it again costs nothing and
/// changes nothing.
pub proof fn law_clearing_sticks(c: Campaign, m: Map<(i32, i32), SectorKind>, w: WarpTarget)
    requires
        m.dom().contains(c.sector),
        m[c.sector] != SectorKind::Zerlak,
        resolved(c, m, w).3 != Some(AppState::GameOver),
    ensures
        ({
            let (c2, m2, w2, _) = resolved(c, m, w);
            &&& m2[c.sector] == SectorKind::Cleared
            &&& resolved(c2, m2, w2) == (c2, m2, w2, None::<AppState>)
        }),
{
    let (c2, m2, w2, _) = resolved(c, m, w);
    assert(m2.insert(c.sector, SectorKind::Cleared) =~= m2);
}

/// A Zerlak sector starts a fight: with fuel to spare the warp into combat
/// begins, the warp cost is paid, and the sector stays Zerlak until the
/// fight is won.
pub proof fn law_zerlak_choice_warps_into_combat(
    c: Campaign,
    m: Map<(i32, i32), SectorKind>,
    w: WarpTarget,
)
    requires
        m.dom().contains(c.sector),
        m[c.sector] == SectorKind::Zerlak,
        c.fuel > ZERLAK_WARP_FUEL,
    ensures
        resolved(c, m, w).3 == Some(AppState::Warp),
        resolved(c, m, w).2 == WarpTarget(AppState::Flight),
        resolved(c, m, w).1 == m,
        resolved(c, m, w).0.fuel == c.fuel - ZERLAK_WARP_FUEL,
{
}

/// Friendly outposts refuel: the tank gains 25, up to a full tank, the
/// outpost is spent, and the run goes on.
pub proof fn law_outposts_refuel(c: Campaign, m: Map<(i32, i32), SectorKind>, w: WarpTarget)
    requires
        m.dom().contains(c.sector),
        m[c.sector] == SectorKind::Friendly,
        c.fuel <= MAX_FUEL,
    ensures
        resolved(c, m, w).0.fuel == (if c.fuel + 25 >= MAX_FUEL { MAX_FUEL as int } else { c.fuel + 25 }),
        resolved(c, m, w).1 == m.insert(c.sector, SectorKind::Cleared),
        resolved(c, m, w).3 is None,
{
}

/// A new run starts on its home sector, which is already cleared: choosing
/// it costs nothing and changes nothing.
pub proof fn law_home_sector_is_free(m: Map<(i32, i32), SectorKind>, side: int, w: WarpTarget)
    requires
        generated_for(m, side, 1),
    ensures
        resolved(Campaign::fresh(), m, w) == (Campaign::fresh(), m, w, None::<AppState>),
{
    assert(in_grid(side, (0i32, 0i32)));
    assert(m.dom().contains((0i32, 0i32)));
    assert(m.insert((0i32, 0i32), SectorKind::Cleared) =~= m);
}

/// The selection never leaves the grid: from a sector on the grid, any
/// step, and any combination of arrow keys, lands on the grid, one
/// sector away at most per step.
pub proof fn law_selection_stays_on_grid(
    sector: (i32, i32),
    left: bool,
    right: bool,
    down: bool,
    up: bool,
    side: int,
)
    requires
        1 <= side <= MAX_GRID_SIZE,
        in_grid(side, sector),
    ensures
        in_grid(side, after_arrows(sector, left, right, down, up, side)),
        forall|dir: Direction|
            in_grid(side, #[trigger] stepped(sector, dir, side)) && (stepped(sector, dir, side) == sector
                || is_neighbor(sector, stepped(sector, dir, side))),
{
}

/// Each cleared galaxy gives way to a bigger, more Zerlak-heavy one, capped
/// so the grid never outgrows the window and at most half the sectors are
/// rolled Zerlak.
pub proof fn law_galaxy_grows_with_level(a: u32, b: u32)
    requires
        a <= b,
    ensures
        grid_side_for(a) <= grid_side_for(b) <= MAX_GRID_SIZE,
        zerlak_permille_for(a) <= zerlak_permille_for(b) <= MAX_ZERLAK_PERMILLE,
{
}

/// Each level's fights are at least as hard as the last: as many fighters
/// or more, at least as fast, up to sixteen fighters at twice the speed.
pub proof fn law_combat_grows_with_level(a: u32, b: u32)
    requires
        a <= b,
    ensures
        enemy_count_for(a) <= enemy_count_for(b) <= MAX_ENEMY_COUNT,
        speed_percent_for(a) <= speed_percent_for(b) <= MAX_SPEED_PERCENT,
{
}


/// When the countdown picks a Zerlak sector for the player, the ship warps
/// into it, unless the warp drains the last fuel and the run ends.
pub proof fn law_auto_pick_warps_in(c: Campaign, m: Map<(i32, i32), SectorKind>, w: WarpTarget)
    requires
        m.dom().contains(c.sector),
        m[c.sector] == SectorKind::Zerlak,
    ensures
        resolved(c, m, w).3 == Some(AppState::Warp) || resolved(c, m, w).3 == Some(AppState::GameOver),
        resolved(c, m, w).2 == WarpTarget(AppState::Flight),
{
}

/// Zerlak expansion only ever adds territory: one empty or cleared sector
/// next to a Zerlak sector turns Zerlak, Zerlak sectors and outposts never
/// change, every other sector keeps its kind, and no sector is added or
/// removed.
pub proof fn law_spread_only_adds_zerlak(
    before: Map<(i32, i32), SectorKind>,
    after: Map<(i32, i32), SectorKind>,
    o: (i32, i32),
    t: (i32, i32),
)
    requires
        is_spread(before, after, o, t),
    ensures
        after.dom() == before.dom(),
        before[t] != SectorKind::Zerlak,
        after[t] == SectorKind::Zerlak,
        forall|p: (i32, i32)| #[trigger] before.dom().contains(p) && p != t ==> after[p] == before[p],
        forall|p: (i32, i32)|
            #[trigger] before.dom().contains(p) && before[p] == SectorKind::Zerlak ==> after[p]
                == SectorKind::Zerlak,
        forall|p: (i32, i32)|
            #[trigger] before.dom().contains(p) && before[p] == SectorKind::Friendly ==> after[p]
                == SectorKind::Friendly,
{
    assert(after.dom() =~= before.dom());
}


/// The campaign after `k` fighters get past the canopy, one after another.
pub open spec fn after_breaches(c: Campaign, k: nat) -> Campaign
    decreases k,
{
    if k == 0 {
        c
    } else {
        after_breach(after_breaches(c, (k - 1) as nat))
    }
}

/// The campaign after `k` enemy lasers land, one after another.
pub open spec fn after_laser_hits(c: Campaign, k: nat) -> Campaign
    decreases k,
{
    if k == 0 {
        c
    } else {
        after_laser_hit(after_laser_hits(c, (k - 1) as nat))
    }
}

/// Breaches add up: `k` of them cost `10 * k` fuel, down to an empty tank,
/// and the run is lost out of fuel once the tank is empty. Nothing else of
/// the campaign changes.
pub proof fn law_breaches_add_up(c: Campaign, k: nat)
    ensures
        after_breaches(c, k).fuel == (if c.fuel > BREACH_FUEL * k { c.fuel - BREACH_FUEL * k } else { 0 }),
        k > 0 && after_breaches(c, k).fuel == 0 ==> after_breaches(c, k).defeat_reason == Some(
            DefeatReason::OutOfFuel,
        ),
        after_breaches(c, k).fuel > 0 ==> after_breaches(c, k).defeat_reason == c.defeat_reason,
        after_breaches(c, k) == (Campaign {
            fuel: after_breaches(c, k).fuel,
            defeat_reason: after_breaches(c, k).defeat_reason,
            ..c
        }),
    decreases k,
{
    if k > 0 {
        law_breaches_add_up(c, (k - 1) as nat);
        let prev = after_breaches(c, (k - 1) as nat);
        assert(after_breaches(c, k) == after_breach(prev));
        assert(after_breach(prev).fuel == drained(prev.fuel, BREACH_FUEL));
    }
}

/// Laser hits add up: `k` of them cost `16 * k` hull, down to none left,
/// and the ship is lost once the hull is gone. Nothing else of the campaign
/// changes.
pub proof fn law_laser_hits_add_up(c: Campaign, k: nat)
    ensures
        after_laser_hits(c, k).health == (if c.health > LASER_DAMAGE * k { c.health - LASER_DAMAGE * k } else { 0 }),
        k > 0 && after_laser_hits(c, k).health == 0 ==> after_laser_hits(c, k).defeat_reason == Some(
            DefeatReason::Destroyed,
        ),
        after_laser_hits(c, k).health > 0 ==> after_laser_hits(c, k).defeat_reason == c.defeat_reason,
        after_laser_hits(c, k) == (Campaign {
            health: after_laser_hits(c, k).health,
            defeat_reason: after_laser_hits(c, k).defeat_reason,
            ..c
        }),
    decreases k,
{
    if k > 0 {
        law_laser_hits_add_up(c, (k - 1) as nat);
        let prev = after_laser_hits(c, (k - 1) as nat);
        assert(after_laser_hits(c, k) == after_laser_hit(prev));
        assert(after_laser_hit(prev).health == drained(prev.health, LASER_DAMAGE));
    }
}


/// The score and fighter count of a shot: a hit is worth exactly one kill's
/// score and takes one fighter off the count, never below zero; a miss
/// changes neither. Nothing else of the campaign changes.
pub proof fn law_shot_bookkeeping(
    c: Campaign,
    m: Map<(i32, i32), SectorKind>,
    remaining: u32,
    w: WarpTarget,
    hit: bool,
)
    requires
        hit ==> c.score <= u32::MAX - SCORE_PER_KILL,
    ensures
        shot_resolved(c, m, remaining, w, hit).0 == (Campaign {
            score: if hit { (c.score + 100) as u32 } else { c.score },
            ..c
        }),
        shot_resolved(c, m, remaining, w, hit).2 == (if hit { if remaining > 0 { remaining - 1 } else { 0 } } else {
            remaining as int
        }),
{
}

/// Destroying every fighter clears the sector: once no fighter remains
/// after a shot, the campaign's sector reads as cleared, wherever it lies,
/// and the ship warps back to the galaxy map; while fighters remain, the
/// sectors, the warp target and the screen stay as they were.
pub proof fn law_no_fighter_left_clears_the_sector(
    c: Campaign,
    m: Map<(i32, i32), SectorKind>,
    remaining: u32,
    w: WarpTarget,
    hit: bool,
)
    ensures
        ({
            let (_, m2, r2, w2, next) = shot_resolved(c, m, remaining, w, hit);
            &&& r2 == 0 ==> m2.dom().contains(c.sector) && m2[c.sector] == SectorKind::Cleared
                && m2 == m.insert(c.sector, SectorKind::Cleared) && w2 == WarpTarget(AppState::GalaxyMap)
                && next == Some(AppState::Warp)
            &&& r2 != 0 ==> m2 == m && w2 == w && next is None
        }),
{
}


/// Fuel arithmetic: draining stops at an empty tank, topping up stops at
/// the cap.
pub proof fn law_tank_arithmetic(amount: u32, delta: u32, cap: u32)
    ensures
        drained(amount, delta) == (if amount > delta { amount - delta } else { 0 }),
        amount <= cap ==> topped_up(amount, delta, cap) == (if amount + delta > cap { cap as int } else {
            amount + delta
        }),
{
}

/// What each kind of sector costs when chosen: Zerlak space costs 5 fuel
/// and starts the warp into combat, empty space costs 2 fuel, an outpost
/// gives 25 (up to a full tank of 100), a cleared sector costs nothing; the
/// tank never goes below empty. An outpost or empty sector becomes
/// cleared, a Zerlak or cleared one keeps its kind, and no other sector
/// changes. Hull, selection, level and score stay as they were, and the run
/// ends exactly when the tank is empty.
pub proof fn law_sector_choice_costs(c: Campaign, m: Map<(i32, i32), SectorKind>, w: WarpTarget)
    requires
        m.dom().contains(c.sector),
        c.fuel <= 100,
    ensures
        ({
            let (c2, m2, w2, next) = resolved(c, m, w);
            &&& m[c.sector] == SectorKind::Zerlak ==> {
                &&& c2.fuel == (if c.fuel > 5 { c.fuel - 5 } else { 0 })
                &&& m2 == m
                &&& w2 == WarpTarget(AppState::Flight)
            }
            &&& m[c.sector] == SectorKind::Empty ==> {
                &&& c2.fuel == (if c.fuel > 2 { c.fuel - 2 } else { 0 })
                &&& m2 == m.insert(c.sector, SectorKind::Cleared)
                &&& w2 == w
            }
            &&& m[c.sector] == SectorKind::Friendly ==> {
                &&& c2.fuel == (if c.fuel + 25 > 100 { 100 } else { c.fuel + 25 })
                &&& c2.fuel > c.fuel || c.fuel == 100
                &&& m2 == m.insert(c.sector, SectorKind::Cleared)
                &&& w2 == w
            }
            &&& m[c.sector] == SectorKind::Cleared ==> c2.fuel == c.fuel && m2 == m && w2 == w
            &&& c.fuel > 2 && m[c.sector] == SectorKind::Empty ==> c2.fuel + 2 == c.fuel
            &&& c2.health == c.health && c2.sector == c.sector && c2.level == c.level && c2.score == c.score
            &&& next == (if c2.fuel == 0 {
                Some(AppState::GameOver)
            } else if m[c.sector] == SectorKind::Zerlak {
                Some(AppState::Warp)
            } else {
                None
            })
        }),
{
}

/// Combat costs: a fighter past the canopy costs 10 fuel, a landed laser 16
/// hull, each down to zero; nothing else of the campaign changes.
pub proof fn law_combat_costs(c: Campaign)
    ensures
        after_breach(c).fuel == (if c.fuel > 10 { c.fuel - 10 } else { 0 }),
        after_breach(c).health == c.health,
        after_laser_hit(c).health == (if c.health > 16 { c.health - 16 } else { 0 }),
        after_laser_hit(c).fuel == c.fuel,
{
}

/// Clearing a galaxy refuels by 40, up to a full tank.
pub proof fn law_level_clear_refuels(fuel: u32)
    requires
        fuel <= 100,
    ensures
        topped_up(fuel, LEVEL_CLEAR_REFUEL, MAX_FUEL) == (if fuel + 40 > 100 { 100 } else { fuel + 40 }),
{
}

/// Each level: the galaxy side is 5 plus the level, up to 10; the Zerlak
/// chance is 260 thousandths plus 25 per level, up to 500; a sector fight
/// has 5 plus the level fighters, up to 16; and enemies approach at the base
/// speed on levels 0 and 1, 8 percent faster for each level after, up to
/// twice the base speed. Below its cap, each value grows by exactly its
/// step from one level to the next.
pub proof fn law_level_scaling(level: u32)
    requires
        level < u32::MAX,
    ensures
        grid_side_for(level) == (if level < 5 { 5 + level } else { 10 }),
        zerlak_permille_for(level) == (if level < 10 { 260 + 25 * level } else { 500 }),
        enemy_count_for(level) == (if level < 11 { 5 + level } else { 16 }),
        speed_percent_for(level) == (if level <= 1 { 100 } else if level >= 14 { 200 } else {
            100 + 8 * (level - 1)
        }),
        grid_side_for(level) < 10 ==> grid_side_for((level + 1) as u32) == grid_side_for(level) + 1,
        zerlak_permille_for(level) < 485 ==> zerlak_permille_for((level + 1) as u32)
            == zerlak_permille_for(level) + 25,
        enemy_count_for(level) < 16 ==> enemy_count_for((level + 1) as u32) == enemy_count_for(level) + 1,
        level >= 1 && speed_percent_for(level) < 196 ==> speed_percent_for((level + 1) as u32)
            == speed_percent_for(level) + 8,
{
}

/// A sector roll in thousandths: below the level's Zerlak chance it gives a
/// Zerlak sector, in the next 160 an outpost, and empty space above that;
/// on level 1 that is Zerlak below 285 and an outpost from 285 to 444.
pub proof fn law_roll_kinds(roll: int, level: u32)
    ensures
        (sector_for_roll(roll, zerlak_permille_for(level), FRIENDLY_PERMILLE as int) == SectorKind::Zerlak)
            <==> roll < zerlak_permille_for(level),
        (sector_for_roll(roll, zerlak_permille_for(level), FRIENDLY_PERMILLE as int) == SectorKind::Friendly)
            <==> (zerlak_permille_for(level) <= roll < zerlak_permille_for(level) + 160),
        (sector_for_roll(roll, zerlak_permille_for(level), FRIENDLY_PERMILLE as int) == SectorKind::Empty)
            <==> roll >= zerlak_permille_for(level) + 160,
        level == 1 ==> zerlak_permille_for(level) == 285,
{
}

/// The offset of one step in each direction.
pub open spec fn direction_offset(dir: Direction) -> (int, int) {
    match dir {
        Direction::Left => (-1, 0),
        Direction::Right => (1, 0),
        Direction::Down => (0, -1),
        Direction::Up => (0, 1),
    }
}

/// A step of the selection moves onto the neighbouring sector in its
/// direction whenever that sector is on the grid, and stays put otherwise,
/// so every sector of the grid can be reached.
pub proof fn law_step_reaches_neighbour(s: (i32, i32), dir: Direction, side: int)
    requires
        1 <= side <= MAX_GRID_SIZE,
        in_grid(side, s),
    ensures
        ({
            let t = (s.0 + direction_offset(dir).0, s.1 + direction_offset(dir).1);
            &&& (0 <= t.0 < side && 0 <= t.1 < side) ==> stepped(s, dir, side).0 == t.0 && stepped(s, dir, side).1
                == t.1
            &&& !(0 <= t.0 < side && 0 <= t.1 < side) ==> stepped(s, dir, side) == s
        }),
        after_arrows(s, false, true, false, false, side) == stepped(s, Direction::Right, side),
        after_arrows(s, true, false, false, false, side) == stepped(s, Direction::Left, side),
        after_arrows(s, false, false, true, false, side) == stepped(s, Direction::Down, side),
        after_arrows(s, false, false, false, true, side) == stepped(s, Direction::Up, side),
{
}


/// A run starts with a full tank of 100 fuel, an undamaged hull of 100, on
/// level 1 with no score, the home sector `(0, 0)` selected, and no defeat.
pub proof fn law_fresh_campaign()
    ensures
        Campaign::fresh().fuel == 100,
        Campaign::fresh().health == 100,
        Campaign::fresh().level == 1,
        Campaign::fresh().score == 0,
        Campaign::fresh().sector == (0i32, 0i32),
        Campaign::fresh().defeat_reason is None,
        Campaign::fresh().valid(),
{
}
} // verus!
