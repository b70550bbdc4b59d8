use oredelve::components::Position;
use oredelve::grid::{Grid, Minable, Tile};
use oredelve::player::{try_dig, try_move_player};
use oredelve::rng::Rng;

fn open_grid(width: usize, height: usize) -> Grid {
    Grid {
        width,
        height,
        depth: 1,
        tiles: vec![Tile::Floor; width * height],
        player_spawns: Vec::new(),
    }
}

#[test]
fn veins_convert_only_stone_cells() {
    let mut grid = Grid::simple_80x50();
    let mut rng = Rng::new(99);
    let before = grid.tiles.clone();
    grid.seed_ore_veins(&mut rng);
    for y in 0..50 {
        for x in 0..80 {
            let idx = grid.xy_idx(x, y);
            if grid.tiles[idx] != before[idx] {
                assert_eq!(before[idx], Tile::Minable(Minable::Stone));
                assert!(
                    grid.tiles[idx] == Tile::Minable(Minable::Iron)
                        || grid.tiles[idx] == Tile::Minable(Minable::Copper)
                );
            }
        }
    }
}

#[test]
fn simple_level_has_expected_shape() {
    let grid = Grid::simple_80x50();
    assert_eq!(grid.width, 80);
    assert_eq!(grid.height, 50);
    assert_eq!(grid.depth, 1);
    assert_eq!(grid.player_spawns, vec![(40, 25)]);
    // The carved interior is floor; veins never touch floor.
    for y in 16..=35 {
        for x in 31..=50 {
            let idx = grid.xy_idx(x, y);
            assert_eq!(grid.tiles[idx], Tile::Floor);
        }
    }
    // The border row above the room is still minable matter.
    for x in 0..80 {
        let idx = grid.xy_idx(x, 15);
        assert!(matches!(grid.tiles[idx], Tile::Minable(_)));
    }
}

#[test]
fn simple_level_is_reproducible() {
    let a = Grid::simple_80x50();
    let b = Grid::simple_80x50();
    assert_eq!(a.tiles, b.tiles);
    assert_eq!(a.player_spawns, b.player_spawns);
}

#[test]
fn dig_converts_minable_to_floor_and_nothing_else() {
    let mut grid = open_grid(4, 4);
    let stone = grid.xy_idx(2, 1);
    grid.tiles[stone] = Tile::Minable(Minable::Stone);
    try_dig(2, 1, &mut grid);
    assert_eq!(grid.tiles[stone], Tile::Floor);
    // Digging an open cell changes nothing.
    let before = grid.tiles.clone();
    try_dig(0, 0, &mut grid);
    assert_eq!(grid.tiles, before);
}

#[test]
fn mining_iron_then_moving_onto_it() {
    let mut grid = open_grid(3, 3);
    let target = grid.xy_idx(2, 1);
    grid.tiles[target] = Tile::Minable(Minable::Iron);
    let mut pos = Position { x: 1, y: 1 };

    // First intent mines the deposit and spends the turn in place.
    try_move_player(1, 0, &mut pos, &mut grid);
    assert_eq!((pos.x, pos.y), (1, 1));
    assert_eq!(grid.tiles[target], Tile::Floor);

    // The next intent at the same cell relocates the actor.
    try_move_player(1, 0, &mut pos, &mut grid);
    assert_eq!((pos.x, pos.y), (2, 1));
    assert_eq!(grid.tiles[target], Tile::Floor);
}

#[test]
fn moving_against_solid_stone_is_a_no_op() {
    let mut grid = open_grid(3, 3);
    let target = grid.xy_idx(1, 0);
    grid.tiles[target] = Tile::Minable(Minable::Stone);
    let mut pos = Position { x: 1, y: 1 };
    try_move_player(0, -1, &mut pos, &mut grid);
    assert_eq!((pos.x, pos.y), (1, 1));
    assert_eq!(grid.tiles[target], Tile::Minable(Minable::Stone));
}

#[test]
fn movement_is_clamped_to_the_grid() {
    let mut grid = open_grid(3, 3);
    let mut pos = Position { x: 0, y: 0 };
    try_move_player(-1, -1, &mut pos, &mut grid);
    assert_eq!((pos.x, pos.y), (0, 0));
    let mut pos = Position { x: 2, y: 2 };
    try_move_player(1, 1, &mut pos, &mut grid);
    assert_eq!((pos.x, pos.y), (2, 2));
}

#[test]
fn index_coordinate_round_trip() {
    let grid = open_grid(7, 5);
    for y in 0..5 {
        for x in 0..7 {
            let idx = grid.xy_idx(x, y);
            assert_eq!(idx, (y as usize) * 7 + x as usize);
            let (row, col) = grid.idx_xy(idx);
            assert_eq!((row, col), (y, x));
        }
    }
}

#[test]
fn walled_grid_is_all_stone() {
    let grid = Grid::walled(5, 4);
    assert_eq!(grid.tiles.len(), 20);
    assert!(grid
        .tiles
        .iter()
        .all(|t| *t == Tile::Minable(Minable::Stone)));
    assert!(grid.player_spawns.is_empty());
}

#[test]
fn tile_attributes_follow_the_kind() {
    assert!(!Tile::Floor.blocked());
    assert!(!Tile::Floor.blocks_sight());
    assert!(!Tile::Floor.is_ore());
    let stone = Tile::Minable(Minable::Stone);
    assert!(stone.blocked() && stone.blocks_sight() && !stone.is_ore());
    let iron = Tile::Minable(Minable::Iron);
    assert!(iron.blocked() && iron.blocks_sight() && iron.is_ore());
    let copper = Tile::Minable(Minable::Copper);
    assert!(copper.blocked() && copper.blocks_sight() && copper.is_ore());
}
