use vstd::prelude::*;
use crate::campaign::{
    drain, drained, top_up, topped_up, AppState, Campaign, DefeatReason, WarpTarget, MAX_FUEL,
};
use crate::galaxy::{
    generated_for, holds_zerlak, in_grid, GalaxyGrid, SectorKind, MAX_GENERATED_LEVEL,
};

verus! {

/// Fuel spent warping into a Zerlak sector.
pub const ZERLAK_WARP_FUEL: u32 = 5;

/// Fuel spent crossing an empty sector.
pub const EMPTY_SECTOR_FUEL: u32 = 2;

/// Fuel taken on at a friendly outpost.
pub const OUTPOST_REFUEL: u32 = 25;

/// Fuel taken on when a galaxy is fully cleared.
pub const LEVEL_CLEAR_REFUEL: u32 = 40;

/// Fuel after choosing a sector of the given kind.
pub open spec fn fuel_after_choice(kind: SectorKind, fuel: u32) -> u32 {
    match kind {
        SectorKind::Zerlak => drained(fuel, ZERLAK_WARP_FUEL),
        SectorKind::Friendly => topped_up(fuel, OUTPOST_REFUEL, MAX_FUEL),
        SectorKind::Empty => drained(fuel, EMPTY_SECTOR_FUEL),
        SectorKind::Cleared => fuel,
    }
}

/// What choosing the selected sector does: the campaign, sectors, warp
/// target and requested next screen afterwards.
///
/// A Zerlak sector costs fuel and starts the warp into combat (the sector
/// stays Zerlak until the fight is won). An outpost refuels, empty space
/// costs fuel, and both become cleared. A cleared sector costs nothing.
/// Whenever the fuel is then gone the run ends, out of fuel. A selection
/// where no sector is on record does nothing.
pub open spec fn resolved(c: Campaign, m: Map<(i32, i32), SectorKind>, w: WarpTarget) -> (
    Campaign,
    Map<(i32, i32), SectorKind>,
    WarpTarget,
    Option<AppState>,
) {
    if !m.dom().contains(c.sector) {
        (c, m, w, None)
    } else {
        let kind = m[c.sector];
        let fuel = fuel_after_choice(kind, c.fuel);
        let c2 = Campaign {
            fuel,
            defeat_reason: if fuel == 0 {
                Some(DefeatReason::OutOfFuel)
            } else {
                c.defeat_reason
            },
            ..c
        };
        let m2 = if kind == SectorKind::Zerlak {
            m
        } else {
            m.insert(c.sector, SectorKind::Cleared)
        };
        let w2 = if kind == SectorKind::Zerlak {
            WarpTarget(AppState::Flight)
        } else {
            w
        };
        let next = if fuel == 0 {
            Some(AppState::GameOver)
        } else if kind == SectorKind::Zerlak {
            Some(AppState::Warp)
        } else {
            None
        };
        (c2, m2, w2, next)
    }
}

/// Applies the outcome of warping into, or selecting, the campaign's sector:
/// costs or refunds fuel depending on what is there, marks it cleared unless
/// it is a Zerlak fight, and checks for an out-of-fuel game over. Returns the
/// screen to switch to, if any.
pub fn resolve_sector_choice(
    campaign: &mut Campaign,
    grid: &mut GalaxyGrid,
    warp_target: &mut WarpTarget,
) -> (next: Option<AppState>)
    ensures
        final(grid).side() == old(grid).side(),
        (*final(campaign), final(grid)@, *final(warp_target), next) == resolved(
            *old(campaign),
            old(grid)@,
            *old(warp_target),
        ),
{
    let (x, y) = campaign.sector;
    let kind = match grid.get(x, y) {
        Some(k) => k,
        None => {
            return None;
        },
    };
    let mut next: Option<AppState> = None;
    match kind {
        SectorKind::Zerlak => {
            campaign.fuel = drain(campaign.fuel, ZERLAK_WARP_FUEL);
            *warp_target = WarpTarget(AppState::Flight);
            next = Some(AppState::Warp);
        },
        SectorKind::Friendly => {
            campaign.fuel = top_up(campaign.fuel, OUTPOST_REFUEL, MAX_FUEL);
            grid.insert(x, y, SectorKind::Cleared);
        },
        SectorKind::Empty => {
            campaign.fuel = drain(campaign.fuel, EMPTY_SECTOR_FUEL);
            grid.insert(x, y, SectorKind::Cleared);
        },
        SectorKind::Cleared => {},
    }
    if campaign.fuel == 0 {
        campaign.defeat_reason = Some(DefeatReason::OutOfFuel);
        next = Some(AppState::GameOver);
    }
    next
}

/// One of the four directions the selection moves in.
#[derive(Clone, Copy, PartialEq, Eq, Debug, Structural)]
pub enum Direction {
    Left,
    Right,
    Down,
    Up,
}

/// Where one step in `dir` takes the selection on a grid of side `side`:
/// it moves while the coordinate it changes stays within `0..side`, else it
/// stays.
pub open spec fn stepped(sector: (i32, i32), dir: Direction, side: int) -> (i32, i32) {
    match dir {
        Direction::Left => if sector.0 > 0 {
            ((sector.0 - 1) as i32, sector.1)
        } else {
            sector
        },
        Direction::Right => if sector.0 < side - 1 {
            ((sector.0 + 1) as i32, sector.1)
        } else {
            sector
        },
        Direction::Down => if sector.1 > 0 {
            (sector.0, (sector.1 - 1) as i32)
        } else {
            sector
        },
        Direction::Up => if sector.1 < side - 1 {
            (sector.0, (sector.1 + 1) as i32)
        } else {
            sector
        },
    }
}

/// Moves the selection one sector in `dir` when the grid allows; returns
/// whether it moved. Nothing else of the campaign changes.
pub fn step_selection(campaign: &mut Campaign, grid: &GalaxyGrid, dir: Direction) -> (moved: bool)
    ensures
        final(campaign).sector == stepped(old(campaign).sector, dir, grid.side()),
        moved == (final(campaign).sector != old(campaign).sector),
        *final(campaign) == (Campaign { sector: final(campaign).sector, ..*old(campaign) }),
{
    let size = grid.size();
    let (x, y) = campaign.sector;
    match dir {
        Direction::Left => {
            if x > 0 {
                campaign.sector = (x - 1, y);
                return true;
            }
        },
        Direction::Right => {
            if x < size - 1 {
                campaign.sector = (x + 1, y);
                return true;
            }
        },
        Direction::Down => {
            if y > 0 {
                campaign.sector = (x, y - 1);
                return true;
            }
        },
        Direction::Up => {
            if y < size - 1 {
                campaign.sector = (x, y + 1);
                return true;
            }
        },
    }
    false
}

/// The selection after the arrow keys pressed this frame, taken in the
/// order left, right, down, up.
pub open spec fn after_arrows(
    sector: (i32, i32),
    left: bool,
    right: bool,
    down: bool,
    up: bool,
    side: int,
) -> (i32, i32) {
    let s1 = if left { stepped(sector, Direction::Left, side) } else { sector };
    let s2 = if right { stepped(s1, Direction::Right, side) } else { s1 };
    let s3 = if down { stepped(s2, Direction::Down, side) } else { s2 };
    if up { stepped(s3, Direction::Up, side) } else { s3 }
}

/// Whether any of the arrow keys pressed this frame moves the selection.
pub open spec fn arrows_move(
    sector: (i32, i32),
    left: bool,
    right: bool,
    down: bool,
    up: bool,
    side: int,
) -> bool {
    let s1 = if left { stepped(sector, Direction::Left, side) } else { sector };
    let s2 = if right { stepped(s1, Direction::Right, side) } else { s1 };
    let s3 = if down { stepped(s2, Direction::Down, side) } else { s2 };
    let s4 = if up { stepped(s3, Direction::Up, side) } else { s3 };
    s1 != sector || s2 != s1 || s3 != s2 || s4 != s3
}

/// Arrow-key selection on the galaxy map: each key pressed this frame steps
/// the selection one sector, never off the grid. Returns whether it moved.
pub fn move_cursor(
    campaign: &mut Campaign,
    grid: &GalaxyGrid,
    left: bool,
    right: bool,
    down: bool,
    up: bool,
) -> (moved: bool)
    ensures
        final(campaign).sector == after_arrows(old(campaign).sector, left, right, down, up, grid.side()),
        moved == arrows_move(old(campaign).sector, left, right, down, up, grid.side()),
        *final(campaign) == (Campaign { sector: final(campaign).sector, ..*old(campaign) }),
{
    let mut moved = false;
    if left && step_selection(campaign, grid, Direction::Left) {
        moved = true;
    }
    if right && step_selection(campaign, grid, Direction::Right) {
        moved = true;
    }
    if down && step_selection(campaign, grid, Direction::Down) {
        moved = true;
    }
    if up && step_selection(campaign, grid, Direction::Up) {
        moved = true;
    }
    moved
}

/// The grid sector `(gx, gy)`, if it lies on the grid's square. Shared by mouse
/// hover and touch selection once a screen position has been turned into
/// grid coordinates.
pub fn cell_on_grid(grid: &GalaxyGrid, gx: i32, gy: i32) -> (cell: Option<(i32, i32)>)
    ensures
        cell == (if in_grid(grid.side(), (gx, gy)) { Some((gx, gy)) } else { None }),
{
    let size = grid.size();
    if gx < 0 || gx >= size || gy < 0 || gy >= size {
        return None;
    }
    Some((gx, gy))
}

/// Selects `cell` (the sector under the mouse); returns whether the
/// selection changed.
pub fn select_sector(campaign: &mut Campaign, cell: (i32, i32)) -> (changed: bool)
    ensures
        changed == (old(campaign).sector != cell),
        *final(campaign) == (Campaign { sector: cell, ..*old(campaign) }),
{
    if campaign.sector.0 == cell.0 && campaign.sector.1 == cell.1 {
        return false;
    }
    campaign.sector = cell;
    true
}

/// When the decision countdown runs out, the Zerlak fleet does not wait: a
/// Zerlak sector, picked at random, is selected and warped into, as if the
/// player had chosen it. Returns the screen to switch to; `None` exactly
/// when no Zerlak sector is left, and then nothing changes.
pub fn decision_countdown_expired(
    campaign: &mut Campaign,
    grid: &mut GalaxyGrid,
    warp_target: &mut WarpTarget,
) -> (next: Option<AppState>)
    ensures
        final(grid).side() == old(grid).side(),
        next is None <==> !holds_zerlak(old(grid)@),
        next is None ==> *final(campaign) == *old(campaign) && final(grid)@ == old(grid)@
            && *final(warp_target) == *old(warp_target),
        next is Some ==> {
            &&& old(grid)@.dom().contains(final(campaign).sector)
            &&& old(grid)@[final(campaign).sector] == SectorKind::Zerlak
            &&& (*final(campaign), final(grid)@, *final(warp_target), next) == resolved(
                Campaign { sector: final(campaign).sector, ..*old(campaign) },
                old(grid)@,
                *old(warp_target),
            )
        },
{
    match grid.pick_zerlak() {
        None => None,
        Some(p) => {
            campaign.sector = p;
            resolve_sector_choice(campaign, grid, warp_target)
        },
    }
}

/// Once every Zerlak sector of the current grid is gone, the next level
/// starts: the level goes up, a bigger, denser galaxy is generated for it,
/// the selection returns home to `(0, 0)` and the ship takes on fuel.
/// Returns whether that happened; while a Zerlak sector is left nothing
/// changes.
pub fn check_level_complete(campaign: &mut Campaign, grid: &mut GalaxyGrid) -> (advanced: bool)
    requires
        old(campaign).level < MAX_GENERATED_LEVEL,
    ensures
        advanced == !holds_zerlak(old(grid)@),
        !advanced ==> *final(campaign) == *old(campaign) && final(grid)@ == old(grid)@,
        advanced ==> {
            &&& *final(campaign) == (Campaign {
                level: (old(campaign).level + 1) as u32,
                sector: (0, 0),
                fuel: topped_up(old(campaign).fuel, LEVEL_CLEAR_REFUEL, MAX_FUEL),
                ..*old(campaign)
            })
            &&& generated_for(final(grid)@, final(grid).side(), final(campaign).level)
        },
{
    if grid.has_zerlak() {
        return false;
    }
    campaign.level = campaign.level + 1;
    *grid = GalaxyGrid::generate(campaign.level);
    campaign.sector = (0, 0);
    campaign.fuel = top_up(campaign.fuel, LEVEL_CLEAR_REFUEL, MAX_FUEL);
    true
}

/// A brand new run, as launched from the title screen or the game-over
/// screen: a fresh campaign and a level-one galaxy.
pub fn new_run() -> (run: (Campaign, GalaxyGrid))
    ensures
        run.0 == Campaign::fresh(),
        generated_for(run.1@, run.1.side(), 1),
{
    let campaign = Campaign::default();
    let grid = GalaxyGrid::generate(1);
    (campaign, grid)
}

} // verus!
