use solaris::campaign::{AppState, Campaign, DefeatReason, WarpTarget};
use solaris::galaxy::{GalaxyGrid, SectorKind};
use solaris::galaxy_map::{
    cell_on_grid, check_level_complete, decision_countdown_expired, move_cursor, new_run,
    resolve_sector_choice, select_sector, step_selection, Direction,
};

fn campaign_at(sector: (i32, i32), fuel: u32) -> Campaign {
    let mut c = Campaign::default();
    c.sector = sector;
    c.fuel = fuel;
    c
}

#[test]
fn zerlak_sector_costs_fuel_and_starts_the_warp() {
    let mut g = GalaxyGrid::new_filled(5, SectorKind::Empty);
    g.insert(2, 3, SectorKind::Zerlak);
    let mut c = campaign_at((2, 3), 100);
    let mut w = WarpTarget::default();
    let next = resolve_sector_choice(&mut c, &mut g, &mut w);
    assert_eq!(next, Some(AppState::Warp));
    assert_eq!(c.fuel, 95);
    assert_eq!(w, WarpTarget(AppState::Flight));
    assert_eq!(g.get(2, 3), Some(SectorKind::Zerlak));
    assert_eq!(c.defeat_reason, None);
}

#[test]
fn outpost_refuels_up_to_a_full_tank_and_is_cleared() {
    let mut g = GalaxyGrid::new_filled(5, SectorKind::Friendly);
    let mut c = campaign_at((1, 1), 50);
    let mut w = WarpTarget::default();
    assert_eq!(resolve_sector_choice(&mut c, &mut g, &mut w), None);
    assert_eq!(c.fuel, 75);
    assert_eq!(g.get(1, 1), Some(SectorKind::Cleared));
    c.sector = (1, 2);
    assert_eq!(resolve_sector_choice(&mut c, &mut g, &mut w), None);
    assert_eq!(c.fuel, 100);
    assert_eq!(w, WarpTarget(AppState::Title));
}

#[test]
fn empty_sector_costs_fuel_and_is_cleared() {
    let mut g = GalaxyGrid::new_filled(5, SectorKind::Empty);
    let mut c = campaign_at((4, 0), 30);
    let mut w = WarpTarget::default();
    assert_eq!(resolve_sector_choice(&mut c, &mut g, &mut w), None);
    assert_eq!(c.fuel, 28);
    assert_eq!(g.get(4, 0), Some(SectorKind::Cleared));
}

#[test]
fn running_dry_ends_the_run() {
    let mut g = GalaxyGrid::new_filled(5, SectorKind::Empty);
    let mut c = campaign_at((0, 1), 2);
    let mut w = WarpTarget::default();
    assert_eq!(resolve_sector_choice(&mut c, &mut g, &mut w), Some(AppState::GameOver));
    assert_eq!(c.fuel, 0);
    assert_eq!(c.defeat_reason, Some(DefeatReason::OutOfFuel));
    assert_eq!(g.get(0, 1), Some(SectorKind::Cleared));

    // A Zerlak warp that drains the tank ends the run too, and the warp
    // target still points at combat.
    let mut g2 = GalaxyGrid::new_filled(5, SectorKind::Zerlak);
    let mut c2 = campaign_at((3, 3), 4);
    let mut w2 = WarpTarget::default();
    assert_eq!(resolve_sector_choice(&mut c2, &mut g2, &mut w2), Some(AppState::GameOver));
    assert_eq!(c2.fuel, 0);
    assert_eq!(w2, WarpTarget(AppState::Flight));
    assert_eq!(g2.get(3, 3), Some(SectorKind::Zerlak));
}

#[test]
fn cleared_and_off_grid_sectors_change_nothing() {
    let mut g = GalaxyGrid::new_filled(5, SectorKind::Cleared);
    let mut c = campaign_at((2, 2), 40);
    let mut w = WarpTarget::default();
    assert_eq!(resolve_sector_choice(&mut c, &mut g, &mut w), None);
    assert_eq!(c.fuel, 40);
    c.sector = (7, 1);
    assert_eq!(resolve_sector_choice(&mut c, &mut g, &mut w), None);
    assert_eq!(c.fuel, 40);
    assert_eq!(c.defeat_reason, None);
}

#[test]
fn choosing_a_cleared_sector_twice_is_free() {
    let mut g = GalaxyGrid::new_filled(5, SectorKind::Empty);
    let mut c = campaign_at((1, 3), 60);
    let mut w = WarpTarget::default();
    resolve_sector_choice(&mut c, &mut g, &mut w);
    assert_eq!(c.fuel, 58);
    assert_eq!(resolve_sector_choice(&mut c, &mut g, &mut w), None);
    assert_eq!(c.fuel, 58);
}

#[test]
fn arrow_keys_move_the_selection_within_the_grid() {
    let g = GalaxyGrid::new_filled(6, SectorKind::Empty);
    let mut c = campaign_at((0, 0), 100);
    assert!(!move_cursor(&mut c, &g, true, false, true, false));
    assert_eq!(c.sector, (0, 0));
    assert!(move_cursor(&mut c, &g, false, true, false, true));
    assert_eq!(c.sector, (1, 1));
    // Left then right in one frame: back where it started, but it moved.
    assert!(move_cursor(&mut c, &g, true, true, false, false));
    assert_eq!(c.sector, (1, 1));
    c.sector = (5, 5);
    assert!(!move_cursor(&mut c, &g, false, true, false, true));
    assert_eq!(c.sector, (5, 5));
    // From the left edge, left and right together still moves right.
    c.sector = (0, 5);
    assert!(move_cursor(&mut c, &g, true, true, false, false));
    assert_eq!(c.sector, (1, 5));
}

#[test]
fn single_steps_stop_at_the_edges() {
    let g = GalaxyGrid::new_filled(5, SectorKind::Empty);
    let mut c = campaign_at((4, 0), 100);
    assert!(!step_selection(&mut c, &g, Direction::Right));
    assert!(!step_selection(&mut c, &g, Direction::Down));
    assert!(step_selection(&mut c, &g, Direction::Left));
    assert!(step_selection(&mut c, &g, Direction::Up));
    assert_eq!(c.sector, (3, 1));
    assert_eq!(c.fuel, 100);
}

#[test]
fn hovering_selects_cells_on_the_grid_only() {
    let g = GalaxyGrid::new_filled(5, SectorKind::Empty);
    assert_eq!(cell_on_grid(&g, 4, 0), Some((4, 0)));
    assert_eq!(cell_on_grid(&g, 5, 0), None);
    assert_eq!(cell_on_grid(&g, 0, -1), None);
    let mut c = Campaign::default();
    assert!(!select_sector(&mut c, (0, 0)));
    assert!(select_sector(&mut c, (2, 4)));
    assert_eq!(c.sector, (2, 4));
}

#[test]
fn countdown_warps_into_a_zerlak_sector() {
    let mut g = GalaxyGrid::new_filled(5, SectorKind::Empty);
    g.insert(3, 1, SectorKind::Zerlak);
    let mut c = campaign_at((0, 0), 80);
    let mut w = WarpTarget::default();
    assert_eq!(decision_countdown_expired(&mut c, &mut g, &mut w), Some(AppState::Warp));
    assert_eq!(c.sector, (3, 1));
    assert_eq!(c.fuel, 75);
    assert_eq!(w, WarpTarget(AppState::Flight));
}

#[test]
fn countdown_without_zerlak_does_nothing() {
    let mut g = GalaxyGrid::new_filled(5, SectorKind::Friendly);
    let mut c = campaign_at((1, 0), 80);
    let mut w = WarpTarget::default();
    assert_eq!(decision_countdown_expired(&mut c, &mut g, &mut w), None);
    assert_eq!(c.sector, (1, 0));
    assert_eq!(c.fuel, 80);
}

#[test]
fn clearing_the_galaxy_starts_the_next_level() {
    let mut g = GalaxyGrid::new_filled(6, SectorKind::Cleared);
    let mut c = campaign_at((3, 4), 70);
    c.score = 1200;
    assert!(check_level_complete(&mut c, &mut g));
    assert_eq!(c.level, 2);
    assert_eq!(c.sector, (0, 0));
    assert_eq!(c.fuel, 100);
    assert_eq!(c.score, 1200);
    assert_eq!(g.size(), 7);
    assert_eq!(g.get(0, 0), Some(SectorKind::Cleared));

    let mut c2 = campaign_at((1, 1), 30);
    let mut g2 = GalaxyGrid::new_filled(6, SectorKind::Cleared);
    assert!(check_level_complete(&mut c2, &mut g2));
    assert_eq!(c2.fuel, 70);
}

#[test]
fn a_level_with_zerlak_left_goes_on() {
    let mut g = GalaxyGrid::new_filled(6, SectorKind::Cleared);
    g.insert(5, 5, SectorKind::Zerlak);
    let mut c = campaign_at((3, 4), 70);
    assert!(!check_level_complete(&mut c, &mut g));
    assert_eq!(c.level, 1);
    assert_eq!(c.sector, (3, 4));
    assert_eq!(g.get(5, 5), Some(SectorKind::Zerlak));
}

#[test]
fn new_run_starts_fresh_on_a_level_one_galaxy() {
    let (c, mut g) = new_run();
    assert_eq!(c.fuel, 100);
    assert_eq!(c.health, 100);
    assert_eq!(c.level, 1);
    assert_eq!(c.score, 0);
    assert_eq!(c.sector, (0, 0));
    assert_eq!(c.defeat_reason, None);
    assert_eq!(g.size(), 6);
    // Choosing the home sector right away is free.
    let mut c = c;
    let mut w = WarpTarget::default();
    assert_eq!(resolve_sector_choice(&mut c, &mut g, &mut w), None);
    assert_eq!(c.fuel, 100);
}
