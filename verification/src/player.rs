//! Movement and mining rules.  One intent per turn: act on a target cell —
//! relocate onto floor, mine an ore deposit in place, or do nothing against
//! solid stone.  These rules consult the grid directly and never the
//! visibility snapshot: visibility gates only what is drawn, never movement.

use vstd::prelude::*;

verus! {

use crate::components::Position;
use crate::grid::{Grid, Minable, Tile, spec_is_ore};
use crate::user_input::{InputKey, spec_key_direction};

/// Mine the cell at `(x, y)`: any minable cell becomes floor, an already
/// open cell stays as it is; no other cell changes.
pub fn try_dig(x: i32, y: i32, map: &mut Grid)
    requires
        old(map).wf(),
        old(map).spec_in_bounds(x as int, y as int),
    ensures
        final(map).wf(),
        final(map).width == old(map).width,
        final(map).height == old(map).height,
        final(map).depth == old(map).depth,
        final(map).player_spawns@ == old(map).player_spawns@,
        final(map).cell(x as int, y as int) == Tile::Floor,
        forall|xx: int, yy: int|
            old(map).spec_in_bounds(xx, yy) && (xx != x || yy != y) ==> #[trigger] final(map).cell(
                xx,
                yy,
            ) == old(map).cell(xx, yy),
{
    let ghost w = map.width as int;
    let ghost h = map.height as int;
    let target = map.xy_idx(x, y);
    let ghost prev = *map;
    let mine = match map.tiles[target] {
        Tile::Minable(_) => true,
        Tile::Floor => false,
    };
    if mine {
        map.tiles[target] = Tile::Floor;
    }
    proof {
        assert forall|xx: int, yy: int|
            old(map).spec_in_bounds(xx, yy) && (xx != x || yy != y) implies #[trigger] map.cell(
            xx,
            yy,
        ) == old(map).cell(xx, yy) by {
            crate::grid::lemma_row_major_index_in_range(w, h, xx, yy);
            if xx + yy * w == x + y * w {
                crate::generator::lemma_row_major_distinct(w, xx, yy, x as int, y as int);
            }
        }
    }
}

/// Clamp `v` into `[0, limit - 1]`.
pub open spec fn spec_clamp(v: int, limit: int) -> int {
    if v < 0 {
        0
    } else if v >= limit {
        limit - 1
    } else {
        v
    }
}

/// What one movement intent decides, given the tile at the clamped target:
/// floor relocates the actor, an ore deposit is mined in place, and solid
/// stone is a no-op.
pub open spec fn spec_move_outcome(target: Tile, tx: int, ty: int, px: int, py: int) -> (int, int) {
    if target === Tile::Floor {
        (tx, ty)
    } else {
        (px, py)
    }
}

/// Everything one movement intent `(dx, dy)` does to the grid and the actor:
/// the target is the intended cell clamped to the grid; floor relocates the
/// actor, an ore deposit at the target is mined to floor with the actor in
/// place, solid stone changes nothing, and no other cell ever changes.
pub open spec fn spec_move_post(
    m0: Grid,
    p0: Position,
    dx: int,
    dy: int,
    m1: Grid,
    p1: Position,
) -> bool {
    let tx = spec_clamp(p0.x + dx, m0.width as int);
    let ty = spec_clamp(p0.y + dy, m0.height as int);
    let target = m0.cell(tx, ty);
    &&& (p1.x as int, p1.y as int) == spec_move_outcome(target, tx, ty, p0.x as int, p0.y as int)
    &&& (spec_is_ore(target) ==> m1.cell(tx, ty) == Tile::Floor)
    &&& (!spec_is_ore(target) ==> m1.tiles@ == m0.tiles@)
    &&& forall|xx: int, yy: int|
        m0.spec_in_bounds(xx, yy) && (xx != tx || yy != ty) ==> #[trigger] m1.cell(xx, yy)
            == m0.cell(xx, yy)
}

/// Apply one movement intent `(dx, dy)` to the actor at `pos`.  The target
/// is the intended cell clamped to the grid.  Onto floor the actor moves;
/// an ore deposit at the target is mined to floor and the turn is spent in
/// place; solid stone leaves actor and grid untouched.
pub fn try_move_player(dx: i32, dy: i32, pos: &mut Position, map: &mut Grid)
    requires
        old(map).wf(),
        old(map).spec_in_bounds(old(pos).x as int, old(pos).y as int),
        -1 <= dx <= 1,
        -1 <= dy <= 1,
    ensures
        final(map).wf(),
        final(map).width == old(map).width,
        final(map).height == old(map).height,
        final(map).depth == old(map).depth,
        final(map).player_spawns@ == old(map).player_spawns@,
        spec_move_post(*old(map), *old(pos), dx as int, dy as int, *final(map), *final(pos)),
        old(map).spec_in_bounds(final(pos).x as int, final(pos).y as int),
{
    let width = map.width;
    let height = map.height;
    let mut tx: i32 = pos.x + dx;
    if tx < 0 {
        tx = 0;
    }
    if tx as usize >= width {
        tx = width as i32 - 1;
    }
    let mut ty: i32 = pos.y + dy;
    if ty < 0 {
        ty = 0;
    }
    if ty as usize >= height {
        ty = height as i32 - 1;
    }
    let target = map.xy_idx(tx, ty);
    match map.tiles[target] {
        Tile::Floor => {
            pos.x = tx;
            pos.y = ty;
        },
        Tile::Minable(Minable::Stone) => {},
        Tile::Minable(_) => {
            try_dig(tx, ty, map);
        },
    }
}

/// Apply one already-decoded key press to the actor: directional keys issue
/// a movement intent, every other key leaves actor and grid untouched.
pub fn player_input(key: InputKey, pos: &mut Position, map: &mut Grid)
    requires
        old(map).wf(),
        old(map).spec_in_bounds(old(pos).x as int, old(pos).y as int),
    ensures
        final(map).wf(),
        final(map).width == old(map).width,
        final(map).height == old(map).height,
        final(map).player_spawns@ == old(map).player_spawns@,
        old(map).spec_in_bounds(final(pos).x as int, final(pos).y as int),
        spec_key_direction(key) is None ==> final(map).tiles@ == old(map).tiles@ && *final(pos)
            == *old(pos),
        spec_key_direction(key) matches Some(d) ==> spec_move_post(
            *old(map),
            *old(pos),
            d.0 as int,
            d.1 as int,
            *final(map),
            *final(pos),
        ),
    {
    match key {
        InputKey::Up => try_move_player(0, -1, pos, map),
        InputKey::Down => try_move_player(0, 1, pos, map),
        InputKey::Left => try_move_player(-1, 0, pos, map),
        InputKey::Right => try_move_player(1, 0, pos, map),
        _ => {},
    }
}

} // verus!
