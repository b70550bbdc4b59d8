use oredelve::generator::{generate, ConfigError, Room};
use oredelve::grid::{Grid, Minable, Tile};
use oredelve::rng::Rng;

fn intersects(a: &Room, b: &Room) -> bool {
    a.x1 <= b.x2 && a.x2 >= b.x1 && a.y1 <= b.y2 && a.y2 >= b.y1
}

fn interior_contains(r: &Room, x: i32, y: i32) -> bool {
    r.x1 < x && x <= r.x2 && r.y1 < y && y <= r.y2
}

fn generate_level(seed: u64) -> (Grid, Vec<Room>) {
    let mut rng = Rng::new(seed);
    generate(80, 30, 30, 6, 10, &mut rng).expect("valid configuration")
}

#[test]
fn rejects_min_size_above_max_size() {
    let mut rng = Rng::new(1);
    let r = generate(80, 30, 30, 10, 6, &mut rng);
    assert_eq!(r.err(), Some(ConfigError::InvalidRoomSizes));
}

#[test]
fn rejects_non_positive_min_size() {
    let mut rng = Rng::new(1);
    let r = generate(80, 30, 30, 0, 6, &mut rng);
    assert_eq!(r.err(), Some(ConfigError::InvalidRoomSizes));
}

#[test]
fn rejects_grid_too_small_for_any_room() {
    let mut rng = Rng::new(1);
    let r = generate(6, 30, 30, 6, 10, &mut rng);
    assert_eq!(r.err(), Some(ConfigError::GridTooSmall));
}

#[test]
fn accepted_rooms_never_satisfy_overlap_test() {
    let (_grid, rooms) = generate_level(0xBADA55);
    for i in 0..rooms.len() {
        for j in 0..rooms.len() {
            if i != j {
                assert!(!intersects(&rooms[i], &rooms[j]));
            }
        }
    }
}

#[test]
fn room_interiors_are_floor() {
    let (grid, rooms) = generate_level(0xBADA55);
    for r in &rooms {
        for y in r.y1 + 1..=r.y2 {
            for x in r.x1 + 1..=r.x2 {
                let idx = grid.xy_idx(x, y);
                assert_eq!(grid.tiles[idx], Tile::Floor);
            }
        }
    }
}

#[test]
fn spawn_points_are_room_centers_in_order() {
    let (grid, rooms) = generate_level(0xBADA55);
    assert_eq!(grid.player_spawns.len(), rooms.len());
    for (k, r) in rooms.iter().enumerate() {
        let center = ((r.x1 + r.x2) / 2, (r.y1 + r.y2) / 2);
        assert_eq!(grid.player_spawns[k], center);
    }
    if let Some(first) = rooms.first() {
        let (sx, sy) = grid.player_spawns[0];
        assert!(first.x1 <= sx && sx <= first.x2);
        assert!(first.y1 <= sy && sy <= first.y2);
    }
}

#[test]
fn scenario_80x30_places_a_room_and_keeps_outside_walled() {
    let (grid, rooms) = generate_level(7);
    assert!(!rooms.is_empty());
    let (sx, sy) = grid.player_spawns[0];
    assert!(0 <= sx && sx < 80 && 0 <= sy && sy < 30);

    // Every floor cell must lie in a room interior or on one of the two
    // possible L-shaped tunnel paths between consecutive room centers; every
    // other cell must still be solid stone.
    let centers: Vec<(i32, i32)> = rooms
        .iter()
        .map(|r| ((r.x1 + r.x2) / 2, (r.y1 + r.y2) / 2))
        .collect();
    let on_segment = |v: i32, a: i32, b: i32| v >= a.min(b) && v <= a.max(b);
    let may_be_tunnel = |x: i32, y: i32| {
        centers.windows(2).any(|pair| {
            let (px, py) = pair[0];
            let (cx, cy) = pair[1];
            let h_first = (y == py && on_segment(x, px, cx)) || (x == cx && on_segment(y, py, cy));
            let v_first = (x == px && on_segment(y, py, cy)) || (y == cy && on_segment(x, px, cx));
            h_first || v_first
        })
    };
    for y in 0..30 {
        for x in 0..80 {
            let idx = grid.xy_idx(x, y);
            let carved = rooms.iter().any(|r| interior_contains(r, x, y)) || may_be_tunnel(x, y);
            match grid.tiles[idx] {
                Tile::Floor => assert!(carved, "floor outside carved regions at ({x}, {y})"),
                Tile::Minable(Minable::Stone) => {}
                other => panic!("unexpected tile {:?} straight out of generation", other),
            }
        }
    }
}

#[test]
fn identical_seed_gives_identical_level() {
    let (grid_a, rooms_a) = generate_level(0xD1CE);
    let (grid_b, rooms_b) = generate_level(0xD1CE);
    assert_eq!(rooms_a, rooms_b);
    assert_eq!(grid_a.tiles, grid_b.tiles);
    assert_eq!(grid_a.player_spawns, grid_b.player_spawns);

    let mut grid_a = grid_a;
    let mut grid_b = grid_b;
    let mut rng_a = Rng::new(0xFEED);
    let mut rng_b = Rng::new(0xFEED);
    grid_a.seed_ore_veins(&mut rng_a);
    grid_b.seed_ore_veins(&mut rng_b);
    assert_eq!(grid_a.tiles, grid_b.tiles);
}

#[test]
fn different_seeds_give_different_draws() {
    let mut a = Rng::new(1);
    let mut b = Rng::new(2);
    let draws_a: Vec<u64> = (0..8).map(|_| a.next_u64()).collect();
    let draws_b: Vec<u64> = (0..8).map(|_| b.next_u64()).collect();
    assert_ne!(draws_a, draws_b);
}

#[test]
fn range_draws_stay_in_bounds() {
    let mut rng = Rng::new(42);
    for _ in 0..200 {
        let v = rng.range_i32(-3, 9);
        assert!((-3..=9).contains(&v));
        let u = rng.range_usize(5, 11);
        assert!((5..=11).contains(&u));
    }
}

#[test]
fn tight_grid_skips_unfittable_candidates() {
    // Candidate sides are drawn from [6, 10] but only rooms narrower than
    // the grid fit; oversized candidates must be skipped, not clamped.
    let mut rng = Rng::new(3);
    let (grid, rooms) = generate(9, 9, 10, 6, 8, &mut rng).expect("valid configuration");
    for r in &rooms {
        assert!(0 <= r.x1 && r.x1 < r.x2 && (r.x2 as usize) < 9);
        assert!(0 <= r.y1 && r.y1 < r.y2 && (r.y2 as usize) < 9);
        assert!(r.x2 - r.x1 >= 6 && r.y2 - r.y1 >= 6);
    }
    for t in &grid.tiles {
        assert!(*t == Tile::Floor || *t == Tile::Minable(Minable::Stone));
    }
}
