use oredelve::components::Position;
use oredelve::generator::ConfigError;
use oredelve::grid::{Grid, Minable, Tile};
use oredelve::player::player_input;
use oredelve::user_input::{handle_keys, InputKey, PlayerAction};
use oredelve::visibility::{check_view_radius, is_cell_visible, VisibilitySnapshot};

fn open_grid(width: usize, height: usize) -> Grid {
    Grid {
        width,
        height,
        depth: 1,
        tiles: vec![Tile::Floor; width * height],
        player_spawns: Vec::new(),
    }
}

#[test]
fn open_room_viewer_sees_every_cell() {
    // An open 11 by 11 room with no walls, the viewer at its center.
    let grid = open_grid(11, 11);
    let mut snap = VisibilitySnapshot::new(11, 11);
    snap.recompute_if_moved((5, 5), (-1, -1), 10, true, &grid);
    assert!(snap.visible.iter().all(|v| *v));
    assert_eq!(snap.visible.iter().filter(|v| **v).count(), 121);
    // After the first computation the explored set equals the visible set.
    assert_eq!(snap.visible, snap.explored);
}

#[test]
fn stationary_viewer_skips_recomputation() {
    let mut grid = open_grid(9, 9);
    let mut snap = VisibilitySnapshot::new(9, 9);
    snap.recompute_if_moved((4, 4), (-1, -1), 3, true, &grid);
    let visible = snap.visible.clone();
    let explored = snap.explored.clone();
    // Mutate the grid: a stationary viewer must not pick the change up.
    let idx = grid.xy_idx(4, 5);
    grid.tiles[idx] = Tile::Minable(Minable::Stone);
    snap.recompute_if_moved((4, 4), (4, 4), 3, true, &grid);
    assert_eq!(snap.visible, visible);
    assert_eq!(snap.explored, explored);
}

#[test]
fn explored_only_grows_over_turns() {
    let grid = open_grid(30, 9);
    let mut snap = VisibilitySnapshot::new(30, 9);
    let mut previous = (-1, -1);
    let mut explored_so_far = vec![false; 30 * 9];
    for step in 0..20 {
        let viewer = (4 + step, 4);
        snap.recompute_if_moved(viewer, previous, 3, true, &grid);
        previous = viewer;
        for i in 0..explored_so_far.len() {
            if explored_so_far[i] {
                assert!(snap.explored[i], "explored flag lost at {i} on step {step}");
            }
        }
        explored_so_far = snap.explored.clone();
    }
    // The viewer moved rightward, so strictly more cells are explored now.
    assert!(snap.explored.iter().filter(|e| **e).count() > 49);
}

#[test]
fn walls_block_sight_beyond_themselves_when_lit() {
    let mut grid = open_grid(9, 3);
    let idx = grid.xy_idx(4, 1);
    grid.tiles[idx] = Tile::Minable(Minable::Stone);
    // The wall itself is lit, the cells behind it are not.
    assert!(is_cell_visible(&grid, 1, 1, 4, 1, 8, true));
    assert!(!is_cell_visible(&grid, 1, 1, 5, 1, 8, true));
    assert!(!is_cell_visible(&grid, 1, 1, 7, 1, 8, true));
    // With unlit walls, light passes through and only range limits it.
    assert!(is_cell_visible(&grid, 1, 1, 7, 1, 8, false));
    assert!(!is_cell_visible(&grid, 1, 1, 7, 1, 3, false));
}

#[test]
fn visibility_is_symmetric() {
    let mut grid = open_grid(12, 12);
    for (x, y) in [(4, 4), (5, 7), (8, 2), (6, 6)] {
        let idx = grid.xy_idx(x, y);
        grid.tiles[idx] = Tile::Minable(Minable::Stone);
    }
    for (ax, ay) in [(0, 0), (2, 9), (11, 11), (3, 5)] {
        for bx in 0..12 {
            for by in 0..12 {
                let forward = is_cell_visible(&grid, ax, ay, bx, by, 20, true);
                let backward = is_cell_visible(&grid, bx, by, ax, ay, 20, true);
                assert_eq!(forward, backward);
            }
        }
    }
}

#[test]
fn radius_cutoff_is_monotonic() {
    let grid = open_grid(15, 15);
    for r in 1..8 {
        for bx in 0..15 {
            for by in 0..15 {
                if is_cell_visible(&grid, 7, 7, bx, by, r, true) {
                    assert!(is_cell_visible(&grid, 7, 7, bx, by, r + 1, true));
                }
            }
        }
    }
}

#[test]
fn view_radius_must_be_positive() {
    assert!(check_view_radius(1).is_ok());
    assert!(check_view_radius(10).is_ok());
    assert_eq!(check_view_radius(0), Err(ConfigError::NonPositiveRadius));
    assert_eq!(check_view_radius(-3), Err(ConfigError::NonPositiveRadius));
}

#[test]
fn cell_state_joins_grid_and_history() {
    let mut grid = open_grid(5, 5);
    let idx = grid.xy_idx(2, 2);
    grid.tiles[idx] = Tile::Minable(Minable::Copper);
    let mut snap = VisibilitySnapshot::new(5, 5);
    snap.recompute_if_moved((0, 0), (-1, -1), 10, true, &grid);
    let seen_wall = snap.cell_state(&grid, 2, 2);
    assert!(seen_wall.blocked && seen_wall.block_sight && seen_wall.explored);
    let seen_floor = snap.cell_state(&grid, 1, 1);
    assert!(!seen_floor.blocked && !seen_floor.block_sight && seen_floor.explored);
}

#[test]
fn tile_constructors_set_the_expected_flags() {
    let empty = oredelve::tile::Tile::empty();
    assert!(!empty.blocked && !empty.explored && !empty.block_sight);
    let wall = oredelve::tile::Tile::wall();
    assert!(wall.blocked && !wall.explored && wall.block_sight);
}

#[test]
fn keys_decide_turns() {
    assert_eq!(
        handle_keys(InputKey::Escape, true),
        (PlayerAction::Exit, None)
    );
    assert_eq!(
        handle_keys(InputKey::Up, true),
        (PlayerAction::TookTurn, Some((0, -1)))
    );
    assert_eq!(
        handle_keys(InputKey::Down, true),
        (PlayerAction::TookTurn, Some((0, 1)))
    );
    assert_eq!(
        handle_keys(InputKey::Left, true),
        (PlayerAction::TookTurn, Some((-1, 0)))
    );
    assert_eq!(
        handle_keys(InputKey::Right, true),
        (PlayerAction::TookTurn, Some((1, 0)))
    );
    assert_eq!(
        handle_keys(InputKey::Right, false),
        (PlayerAction::DidntTakeTurn, None)
    );
    assert_eq!(
        handle_keys(InputKey::ToggleFullscreen, true),
        (PlayerAction::DidntTakeTurn, None)
    );
    assert_eq!(
        handle_keys(InputKey::Other, true),
        (PlayerAction::DidntTakeTurn, None)
    );
}

#[test]
fn player_input_moves_only_on_direction_keys() {
    let mut grid = open_grid(3, 3);
    let mut pos = Position { x: 1, y: 1 };
    player_input(InputKey::Other, &mut pos, &mut grid);
    assert_eq!((pos.x, pos.y), (1, 1));
    player_input(InputKey::Left, &mut pos, &mut grid);
    assert_eq!((pos.x, pos.y), (0, 1));
    player_input(InputKey::Down, &mut pos, &mut grid);
    assert_eq!((pos.x, pos.y), (0, 2));
}
