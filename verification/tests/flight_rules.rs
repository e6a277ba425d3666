use solaris::campaign::{drain, top_up, AppState, Campaign, DefeatReason, WarpTarget};
use solaris::flight::{enemy_reached_canopy, laser_hit, resolve_shot, should_spawn, Difficulty};
use solaris::galaxy::{GalaxyGrid, SectorKind};
use solaris::meshes::{star_outline_indices, strip_indices};

#[test]
fn campaign_starts_full() {
    let c = Campaign::default();
    assert_eq!((c.fuel, c.health, c.sector, c.level, c.score), (100, 100, (0, 0), 1, 0));
    assert_eq!(c.defeat_reason, None);
    assert_eq!(AppState::default(), AppState::Title);
}

#[test]
fn drain_and_top_up_stop_at_their_bounds() {
    assert_eq!(drain(10, 3), 7);
    assert_eq!(drain(3, 3), 0);
    assert_eq!(drain(2, 16), 0);
    assert_eq!(top_up(50, 25, 100), 75);
    assert_eq!(top_up(80, 25, 100), 100);
    assert_eq!(top_up(u32::MAX, 25, 100), 100);
    assert_eq!(top_up(0, u32::MAX, 100), 100);
}

#[test]
fn difficulty_grows_per_level() {
    assert_eq!(Difficulty::for_level(0), Difficulty { enemy_count: 5, speed_percent: 100 });
    assert_eq!(Difficulty::for_level(1), Difficulty { enemy_count: 6, speed_percent: 100 });
    assert_eq!(Difficulty::for_level(2), Difficulty { enemy_count: 7, speed_percent: 108 });
    assert_eq!(Difficulty::for_level(11), Difficulty { enemy_count: 16, speed_percent: 180 });
    assert_eq!(Difficulty::for_level(13), Difficulty { enemy_count: 16, speed_percent: 196 });
    assert_eq!(Difficulty::for_level(14), Difficulty { enemy_count: 16, speed_percent: 200 });
    assert_eq!(Difficulty::for_level(u32::MAX - 5), Difficulty { enemy_count: 16, speed_percent: 200 });
}

#[test]
fn spawning_waits_for_room() {
    assert!(should_spawn(2, 5));
    assert!(!should_spawn(5, 5));
    assert!(!should_spawn(0, 0));
}

#[test]
fn breach_costs_fuel_and_can_end_the_run() {
    let mut c = Campaign::default();
    c.fuel = 15;
    assert_eq!(enemy_reached_canopy(&mut c), None);
    assert_eq!(c.fuel, 5);
    assert_eq!(enemy_reached_canopy(&mut c), Some(AppState::GameOver));
    assert_eq!(c.fuel, 0);
    assert_eq!(c.defeat_reason, Some(DefeatReason::OutOfFuel));
}

#[test]
fn laser_hits_wear_the_hull_down() {
    let mut c = Campaign::default();
    assert_eq!(laser_hit(&mut c), None);
    assert_eq!(c.health, 84);
    let mut hits = 1;
    loop {
        hits += 1;
        if laser_hit(&mut c).is_some() {
            break;
        }
    }
    // 100, 84, 68, 52, 36, 20, 4, then gone: the seventh hit destroys it.
    assert_eq!(hits, 7);
    assert_eq!(c.health, 0);
    assert_eq!(c.defeat_reason, Some(DefeatReason::Destroyed));
    assert_eq!(c.fuel, 100);
}

#[test]
fn destroying_every_fighter_clears_the_sector() {
    let mut g = GalaxyGrid::new_filled(5, SectorKind::Empty);
    g.insert(2, 2, SectorKind::Zerlak);
    let mut c = Campaign::default();
    c.sector = (2, 2);
    let mut w = WarpTarget(AppState::Flight);
    let mut remaining = 2u32;
    assert_eq!(resolve_shot(&mut c, &mut g, &mut remaining, &mut w, false), None);
    assert_eq!((remaining, c.score), (2, 0));
    assert_eq!(resolve_shot(&mut c, &mut g, &mut remaining, &mut w, true), None);
    assert_eq!((remaining, c.score), (1, 100));
    assert_eq!(g.get(2, 2), Some(SectorKind::Zerlak));
    assert_eq!(w, WarpTarget(AppState::Flight));
    assert_eq!(resolve_shot(&mut c, &mut g, &mut remaining, &mut w, true), Some(AppState::Warp));
    assert_eq!((remaining, c.score), (0, 200));
    assert_eq!(g.get(2, 2), Some(SectorKind::Cleared));
    assert_eq!(w, WarpTarget(AppState::GalaxyMap));
}

#[test]
fn star_outline_is_a_closed_fan() {
    assert_eq!(star_outline_indices(2), vec![0, 1, 2, 0, 2, 3, 0, 3, 4, 0, 4, 1]);
    let seven = star_outline_indices(7);
    assert_eq!(seven.len(), 42);
    assert_eq!(&seven[39..], &[0, 14, 1]);
    assert!(seven.iter().all(|&i| i <= 14));
    assert!(star_outline_indices(0).is_empty());
}

#[test]
fn strip_is_two_triangles_per_segment() {
    assert_eq!(strip_indices(1), vec![0, 1, 2, 1, 3, 2]);
    let ten = strip_indices(10);
    assert_eq!(ten.len(), 60);
    assert_eq!(&ten[54..], &[18, 19, 20, 19, 21, 20]);
    assert!(ten.iter().all(|&i| i < 22));
}

#[test]
fn the_last_kill_clears_the_sector_wherever_it_lies() {
    let mut g = GalaxyGrid::new_filled(5, SectorKind::Empty);
    let mut c = Campaign::default();
    c.sector = (8, -2);
    let mut w = WarpTarget(AppState::Flight);
    let mut remaining = 1u32;
    assert_eq!(resolve_shot(&mut c, &mut g, &mut remaining, &mut w, true), Some(AppState::Warp));
    assert_eq!(g.get(8, -2), Some(SectorKind::Cleared));
    assert_eq!(w, WarpTarget(AppState::GalaxyMap));
    assert_eq!(g.size(), 5);
}

#[test]
fn repeated_breaches_and_hits_add_up() {
    let mut c = Campaign::default();
    c.fuel = 35;
    assert_eq!(enemy_reached_canopy(&mut c), None);
    assert_eq!(enemy_reached_canopy(&mut c), None);
    assert_eq!(enemy_reached_canopy(&mut c), None);
    assert_eq!(c.fuel, 5);
    assert_eq!(enemy_reached_canopy(&mut c), Some(AppState::GameOver));
    assert_eq!(c.fuel, 0);
    let mut d = Campaign::default();
    d.health = 40;
    assert_eq!(laser_hit(&mut d), None);
    assert_eq!(laser_hit(&mut d), None);
    assert_eq!(d.health, 8);
    assert_eq!(laser_hit(&mut d), Some(AppState::GameOver));
    assert_eq!(d.defeat_reason, Some(DefeatReason::Destroyed));
}
