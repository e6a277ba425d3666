use solaris::galaxy::{
    grid_side, kind_for_roll, zerlak_permille, GalaxyGrid, SectorKind, FRIENDLY_PERMILLE,
};

fn count(grid: &GalaxyGrid, kind: SectorKind) -> usize {
    let mut n = 0;
    for x in 0..grid.size() {
        for y in 0..grid.size() {
            if grid.get(x, y) == Some(kind) {
                n += 1;
            }
        }
    }
    n
}

#[test]
fn grid_side_grows_one_per_level_up_to_ten() {
    assert_eq!(grid_side(0), 5);
    assert_eq!(grid_side(1), 6);
    assert_eq!(grid_side(4), 9);
    assert_eq!(grid_side(5), 10);
    assert_eq!(grid_side(40), 10);
    assert_eq!(grid_side(2147483642), 10);
}

#[test]
fn zerlak_chance_grows_and_caps_at_half() {
    assert_eq!(zerlak_permille(0), 260);
    assert_eq!(zerlak_permille(1), 285);
    assert_eq!(zerlak_permille(9), 485);
    assert_eq!(zerlak_permille(10), 500);
    assert_eq!(zerlak_permille(u32::MAX), 500);
}

#[test]
fn rolls_map_to_sector_kinds() {
    assert_eq!(kind_for_roll(0, 285, 160), SectorKind::Zerlak);
    assert_eq!(kind_for_roll(284, 285, 160), SectorKind::Zerlak);
    assert_eq!(kind_for_roll(285, 285, 160), SectorKind::Friendly);
    assert_eq!(kind_for_roll(444, 285, 160), SectorKind::Friendly);
    assert_eq!(kind_for_roll(445, 285, 160), SectorKind::Empty);
    assert_eq!(kind_for_roll(999, 285, 160), SectorKind::Empty);
    assert_eq!(kind_for_roll(u32::MAX, 500, 160), SectorKind::Empty);
}

#[test]
fn filled_grid_get_and_insert() {
    let mut g = GalaxyGrid::new_filled(3, SectorKind::Empty);
    assert_eq!(g.size(), 3);
    assert_eq!(g.get(0, 0), Some(SectorKind::Empty));
    assert_eq!(g.get(2, 2), Some(SectorKind::Empty));
    assert_eq!(g.get(3, 0), None);
    assert_eq!(g.get(0, -1), None);
    assert_eq!(g.insert(1, 2, SectorKind::Zerlak), Some(SectorKind::Empty));
    assert_eq!(g.get(1, 2), Some(SectorKind::Zerlak));
    assert_eq!(g.get(2, 1), Some(SectorKind::Empty));
    assert_eq!(count(&g, SectorKind::Zerlak), 1);
}

#[test]
fn sectors_off_the_square_are_recorded_too() {
    let mut g = GalaxyGrid::new_filled(3, SectorKind::Empty);
    assert_eq!(g.insert(5, 5, SectorKind::Cleared), None);
    assert_eq!(g.get(5, 5), Some(SectorKind::Cleared));
    assert_eq!(g.insert(5, 5, SectorKind::Zerlak), Some(SectorKind::Cleared));
    assert_eq!(g.insert(-1, 0, SectorKind::Friendly), None);
    assert_eq!(g.get(5, 5), Some(SectorKind::Zerlak));
    assert_eq!(g.get(-1, 0), Some(SectorKind::Friendly));
    assert_eq!(g.get(4, 4), None);
    assert_eq!(g.size(), 3);
    assert!(g.has_zerlak());
    assert_eq!(g.zerlak_cells(), vec![(5, 5)]);
    let all = g.sectors();
    assert_eq!(all.len(), 11);
    assert!(all.contains(&((5, 5), SectorKind::Zerlak)));
    assert!(all.contains(&((-1, 0), SectorKind::Friendly)));
    assert!(all.contains(&((2, 2), SectorKind::Empty)));
    // The off-square Zerlak sector spreads into recorded neighbours only.
    assert!(g.spread_candidates((5, 5)).is_empty());
    g.insert(5, 4, SectorKind::Cleared);
    assert_eq!(g.spread_candidates((5, 5)), vec![(5, 4)]);
}

#[test]
fn spread_from_takes_the_picked_target() {
    let mut g = GalaxyGrid::new_filled(3, SectorKind::Empty);
    g.insert(1, 1, SectorKind::Zerlak);
    // Targets in order: (0, 1), (2, 1), (1, 0), (1, 2).
    g.spread_from((1, 1), 2);
    assert_eq!(g.get(1, 0), Some(SectorKind::Zerlak));
    assert_eq!(count(&g, SectorKind::Zerlak), 2);
    // (1, 0) is taken now: the targets are (0, 1), (2, 1), (1, 2).
    g.spread_from((1, 1), 2);
    assert_eq!(g.get(1, 2), Some(SectorKind::Zerlak));
    assert_eq!(g.zerlak_cells(), vec![(1, 0), (1, 1), (1, 2)]);
}

#[test]
fn generate_from_rolls_follows_each_roll() {
    // Level 1: a 6x6 grid, Zerlak below 285, outpost below 445.
    let mut rolls = vec![999u32; 36];
    rolls[0] = 0; // home sector: cleared whatever it rolls
    rolls[1] = 100; // (0, 1)
    rolls[6] = 300; // (1, 0)
    rolls[35] = 284; // (5, 5)
    rolls[7] = 445; // (1, 1)
    let g = GalaxyGrid::generate_from_rolls(1, &rolls);
    assert_eq!(g.size(), 6);
    assert_eq!(g.get(0, 0), Some(SectorKind::Cleared));
    assert_eq!(g.get(0, 1), Some(SectorKind::Zerlak));
    assert_eq!(g.get(1, 0), Some(SectorKind::Friendly));
    assert_eq!(g.get(5, 5), Some(SectorKind::Zerlak));
    assert_eq!(g.get(1, 1), Some(SectorKind::Empty));
    assert_eq!(g.get(3, 4), Some(SectorKind::Empty));
    assert_eq!(count(&g, SectorKind::Zerlak), 2);
    assert_eq!(count(&g, SectorKind::Friendly), 1);
    assert_eq!(count(&g, SectorKind::Cleared), 1);
    assert_eq!(FRIENDLY_PERMILLE, 160);
}

#[test]
fn generate_builds_the_level_grid() {
    for level in [1u32, 3, 5, 12] {
        let g = GalaxyGrid::generate(level);
        let side = grid_side(level);
        assert_eq!(g.size(), side);
        assert_eq!(g.get(0, 0), Some(SectorKind::Cleared));
        assert_eq!(count(&g, SectorKind::Cleared), 1);
        let total = count(&g, SectorKind::Zerlak)
            + count(&g, SectorKind::Friendly)
            + count(&g, SectorKind::Empty)
            + 1;
        assert_eq!(total as i32, side * side);
    }
}

#[test]
fn generate_draws_varied_sectors() {
    // With a Zerlak chance of a half on a 10x10 grid, a grid with no
    // Zerlak sector or no empty sector is all but impossible.
    let g = GalaxyGrid::generate(20);
    assert!(count(&g, SectorKind::Zerlak) > 0);
    assert!(count(&g, SectorKind::Empty) + count(&g, SectorKind::Friendly) > 0);
}

#[test]
fn zerlak_cells_lists_each_zerlak_sector_once() {
    let mut g = GalaxyGrid::new_filled(4, SectorKind::Empty);
    assert!(!g.has_zerlak());
    assert!(g.zerlak_cells().is_empty());
    g.insert(0, 3, SectorKind::Zerlak);
    g.insert(2, 1, SectorKind::Zerlak);
    g.insert(3, 3, SectorKind::Friendly);
    assert!(g.has_zerlak());
    assert_eq!(g.zerlak_cells(), vec![(0, 3), (2, 1)]);
}

#[test]
fn pick_zerlak_returns_a_zerlak_sector() {
    let mut g = GalaxyGrid::new_filled(5, SectorKind::Cleared);
    assert_eq!(g.pick_zerlak(), None);
    g.insert(4, 2, SectorKind::Zerlak);
    assert_eq!(g.pick_zerlak(), Some((4, 2)));
    g.insert(1, 1, SectorKind::Zerlak);
    for _ in 0..20 {
        let p = g.pick_zerlak().unwrap();
        assert!(p == (4, 2) || p == (1, 1));
    }
}

#[test]
fn spread_candidates_are_open_neighbours_in_order() {
    let mut g = GalaxyGrid::new_filled(3, SectorKind::Empty);
    g.insert(1, 1, SectorKind::Zerlak);
    g.insert(0, 1, SectorKind::Friendly);
    g.insert(1, 2, SectorKind::Cleared);
    assert_eq!(g.spread_candidates((1, 1)), vec![(2, 1), (1, 0), (1, 2)]);
    // A corner sector has only two neighbours on the grid.
    let corner = GalaxyGrid::new_filled(3, SectorKind::Zerlak);
    assert!(corner.spread_candidates((0, 0)).is_empty());
    let mut g2 = GalaxyGrid::new_filled(3, SectorKind::Cleared);
    g2.insert(0, 0, SectorKind::Zerlak);
    assert_eq!(g2.spread_candidates((0, 0)), vec![(1, 0), (0, 1)]);
}

#[test]
fn spread_takes_one_neighbour_of_a_zerlak_sector() {
    let mut g = GalaxyGrid::new_filled(5, SectorKind::Empty);
    g.insert(2, 2, SectorKind::Zerlak);
    g.spread_zerlaks();
    assert_eq!(count(&g, SectorKind::Zerlak), 2);
    let taken: Vec<(i32, i32)> = g.zerlak_cells().into_iter().filter(|p| *p != (2, 2)).collect();
    assert_eq!(taken.len(), 1);
    let t = taken[0];
    assert!(t == (1, 2) || t == (3, 2) || t == (2, 1) || t == (2, 3));
}

#[test]
fn spread_without_room_or_zerlak_changes_nothing() {
    let mut g = GalaxyGrid::new_filled(3, SectorKind::Friendly);
    g.insert(1, 1, SectorKind::Zerlak);
    g.spread_zerlaks();
    assert_eq!(count(&g, SectorKind::Zerlak), 1);
    let mut none = GalaxyGrid::new_filled(3, SectorKind::Empty);
    none.spread_zerlaks();
    assert_eq!(count(&none, SectorKind::Zerlak), 0);
}
