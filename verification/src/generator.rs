//! The room and tunnel generator: places non-overlapping rectangular rooms by
//! rejection sampling, carves their interiors to floor, connects consecutive
//! room centers with L-shaped tunnels, and emits one spawn point per accepted
//! room.  The whole pass consumes a single explicit generator value, so a
//! fixed seed reproduces an identical level.

use vstd::prelude::*;

verus! {

use crate::grid::{Grid, Minable, Tile};
use crate::rng::{Rng, rng_coin, rng_range, rng_step};

/// A configuration fault, reported before any generation work starts.
#[derive(PartialEq, Eq, Structural, Copy, Clone, Debug)]
pub enum ConfigError {
    /// Room sizes must satisfy `1 <= min_size <= max_size`.
    InvalidRoomSizes,
    /// The grid cannot fit even one room of the smallest size.
    GridTooSmall,
    /// A view radius must be positive.
    NonPositiveRadius,
}

/// An axis-aligned rectangular room.  The cells strictly inside the left and
/// top border, `x1 < x <= x2` and `y1 < y <= y2`, form the carved interior;
/// the closed rectangle is what the overlap test compares.
#[derive(PartialEq, Eq, Structural, Copy, Clone, Debug)]
pub struct Room {
    pub x1: i32,
    pub y1: i32,
    pub x2: i32,
    pub y2: i32,
}

impl Room {
    /// A room is well formed for a `w` by `h` grid when it is a proper
    /// rectangle lying inside the grid.
    pub open spec fn wf_in(self, w: int, h: int) -> bool {
        &&& 0 <= self.x1 < self.x2 < w
        &&& 0 <= self.y1 < self.y2 < h
    }

    /// Whether `(x, y)` lies in the carved interior.
    pub open spec fn spec_interior_contains(self, x: int, y: int) -> bool {
        self.x1 < x <= self.x2 && self.y1 < y <= self.y2
    }

    /// Whether `(x, y)` lies within the room's closed bounds.
    pub open spec fn spec_contains(self, x: int, y: int) -> bool {
        self.x1 <= x <= self.x2 && self.y1 <= y <= self.y2
    }

    /// The inclusive overlap test: closed rectangles that touch, even only
    /// edge to edge, count as intersecting.
    pub open spec fn spec_intersect(self, other: Room) -> bool {
        &&& self.x1 <= other.x2
        &&& self.x2 >= other.x1
        &&& self.y1 <= other.y2
        &&& self.y2 >= other.y1
    }

    /// The integer-truncated center of the room.
    pub open spec fn spec_center(self) -> (int, int) {
        ((self.x1 + self.x2) / 2, (self.y1 + self.y2) / 2)
    }

    pub fn intersect(&self, other: &Room) -> (r: bool)
        ensures
            r == self.spec_intersect(*other),
    {
        self.x1 <= other.x2 && self.x2 >= other.x1 && self.y1 <= other.y2 && self.y2
            >= other.y1
    }

    pub fn center(&self) -> (r: (i32, i32))
        requires
            0 <= self.x1 <= self.x2 < 0x4000_0000,
            0 <= self.y1 <= self.y2 < 0x4000_0000,
        ensures
            (r.0 as int, r.1 as int) == self.spec_center(),
    {
        ((self.x1 + self.x2) / 2, (self.y1 + self.y2) / 2)
    }
}

/// The integer-truncated center of a well-formed room lies within the room's
/// closed bounds; in particular every spawn point lies inside its room.
pub proof fn lemma_room_center_in_bounds(room: Room, w: int, h: int)
    requires
        room.wf_in(w, h),
    ensures
        room.spec_contains(room.spec_center().0, room.spec_center().1),
{
}

/// One straight tunnel segment, one cell wide, endpoints included.
#[derive(PartialEq, Eq, Structural, Copy, Clone, Debug)]
pub enum Tunnel {
    Horizontal { y: i32, x_a: i32, x_b: i32 },
    Vertical { x: i32, y_a: i32, y_b: i32 },
}

/// Whether a tunnel segment covers the cell `(x, y)`.
pub open spec fn tunnel_covers(t: Tunnel, x: int, y: int) -> bool {
    match t {
        Tunnel::Horizontal { y: ty, x_a, x_b } => {
            y == ty && (if x_a <= x_b {
                x_a <= x <= x_b
            } else {
                x_b <= x <= x_a
            })
        },
        Tunnel::Vertical { x: tx, y_a, y_b } => {
            x == tx && (if y_a <= y_b {
                y_a <= y <= y_b
            } else {
                y_b <= y <= y_a
            })
        },
    }
}

/// A tunnel is well formed when all of its cells lie inside a `w` by `h` grid.
pub open spec fn tunnel_wf_in(t: Tunnel, w: int, h: int) -> bool {
    match t {
        Tunnel::Horizontal { y, x_a, x_b } => {
            0 <= y < h && 0 <= x_a < w && 0 <= x_b < w
        },
        Tunnel::Vertical { x, y_a, y_b } => {
            0 <= x < w && 0 <= y_a < h && 0 <= y_b < h
        },
    }
}

/// Whether some room's interior covers `(x, y)`.
pub open spec fn rooms_cover(rooms: Seq<Room>, x: int, y: int) -> bool {
    exists|k: int| 0 <= k < rooms.len() && rooms[k].spec_interior_contains(x, y)
}

/// Whether some tunnel covers `(x, y)`.
pub open spec fn tunnels_cover(tunnels: Seq<Tunnel>, x: int, y: int) -> bool {
    exists|k: int| 0 <= k < tunnels.len() && tunnel_covers(tunnels[k], x, y)
}

/// Whether `(x, y)` was carved to floor by some room interior or tunnel.
pub open spec fn carved(rooms: Seq<Room>, tunnels: Seq<Tunnel>, x: int, y: int) -> bool {
    rooms_cover(rooms, x, y) || tunnels_cover(tunnels, x, y)
}

/// No two distinct accepted rooms satisfy the inclusive overlap test.
pub open spec fn rooms_separated(rooms: Seq<Room>) -> bool {
    forall|i: int, j: int|
        0 <= i < rooms.len() && 0 <= j < rooms.len() && i != j ==> !(#[trigger] rooms[i].spec_intersect(
            rooms[j],
        ))
}

/// Appending a room extends the covered set by exactly that room's interior.
pub proof fn lemma_rooms_cover_push(rooms: Seq<Room>, r: Room, x: int, y: int)
    ensures
        rooms_cover(rooms.push(r), x, y) == (rooms_cover(rooms, x, y)
            || r.spec_interior_contains(x, y)),
{
    if rooms_cover(rooms, x, y) {
        let k = choose|k: int| 0 <= k < rooms.len() && rooms[k].spec_interior_contains(x, y);
        assert(rooms.push(r)[k].spec_interior_contains(x, y));
    }
    if r.spec_interior_contains(x, y) {
        assert(rooms.push(r)[rooms.len() as int].spec_interior_contains(x, y));
    }
    if rooms_cover(rooms.push(r), x, y) {
        let k = choose|k: int|
            0 <= k < rooms.push(r).len() && rooms.push(r)[k].spec_interior_contains(x, y);
        if k < rooms.len() {
            assert(rooms[k].spec_interior_contains(x, y));
        }
    }
}

/// Appending a tunnel extends the covered set by exactly that tunnel's cells.
pub proof fn lemma_tunnels_cover_push(tunnels: Seq<Tunnel>, t: Tunnel, x: int, y: int)
    ensures
        tunnels_cover(tunnels.push(t), x, y) == (tunnels_cover(tunnels, x, y) || tunnel_covers(
            t,
            x,
            y,
        )),
{
    if tunnels_cover(tunnels, x, y) {
        let k = choose|k: int| 0 <= k < tunnels.len() && tunnel_covers(tunnels[k], x, y);
        assert(tunnel_covers(tunnels.push(t)[k], x, y));
    }
    if tunnel_covers(t, x, y) {
        assert(tunnel_covers(tunnels.push(t)[tunnels.len() as int], x, y));
    }
    if tunnels_cover(tunnels.push(t), x, y) {
        let k = choose|k: int|
            0 <= k < tunnels.push(t).len() && tunnel_covers(tunnels.push(t)[k], x, y);
        if k < tunnels.len() {
            assert(tunnel_covers(tunnels[k], x, y));
        }
    }
}

impl Grid {
    /// Carve a room's interior to floor and record its center as the next
    /// spawn point.
    pub(crate) fn apply_room_to_map(&mut self, room: &Room)
        requires
            old(self).wf(),
            room.wf_in(old(self).width as int, old(self).height as int),
        ensures
            final(self).wf(),
            final(self).width == old(self).width,
            final(self).height == old(self).height,
            final(self).depth == old(self).depth,
            final(self).player_spawns@ == old(self).player_spawns@.push(
                (room.spec_center().0 as i32, room.spec_center().1 as i32),
            ),
            forall|x: int, y: int|
                old(self).spec_in_bounds(x, y) ==> #[trigger] final(self).cell(x, y) == (
                if room.spec_interior_contains(x, y) {
                    Tile::Floor
                } else {
                    old(self).cell(x, y)
                }),
    {
        let mut y: i32 = room.y1 + 1;
        while y <= room.y2
            invariant
                self.wf(),
                self.width == old(self).width,
                self.height == old(self).height,
                self.depth == old(self).depth,
                self.player_spawns@ == old(self).player_spawns@,
                room.wf_in(self.width as int, self.height as int),
                room.y1 + 1 <= y <= room.y2 + 1,
                forall|xx: int, yy: int|
                    old(self).spec_in_bounds(xx, yy) ==> #[trigger] self.cell(xx, yy) == (
                    if room.spec_interior_contains(xx, yy) && yy < y {
                        Tile::Floor
                    } else {
                        old(self).cell(xx, yy)
                    }),
            decreases room.y2 + 1 - y,
        {
            let mut x: i32 = room.x1 + 1;
            while x <= room.x2
                invariant
                    self.wf(),
                    self.width == old(self).width,
                    self.height == old(self).height,
                    self.depth == old(self).depth,
                    self.player_spawns@ == old(self).player_spawns@,
                    room.wf_in(self.width as int, self.height as int),
                    room.y1 + 1 <= y <= room.y2,
                    room.x1 + 1 <= x <= room.x2 + 1,
                    forall|xx: int, yy: int|
                        old(self).spec_in_bounds(xx, yy) ==> #[trigger] self.cell(xx, yy) == (
                        if room.spec_interior_contains(xx, yy) && (yy < y || (yy == y && xx < x)) {
                            Tile::Floor
                        } else {
                            old(self).cell(xx, yy)
                        }),
                decreases room.x2 + 1 - x,
            {
                let ghost prev = *self;
                let idx = self.xy_idx(x, y);
                self.tiles[idx] = Tile::Floor;
                proof {
                    assert forall|xx: int, yy: int|
                        old(self).spec_in_bounds(xx, yy) implies #[trigger] self.cell(xx, yy) == (
                    if room.spec_interior_contains(xx, yy) && (yy < y || (yy == y && xx < x + 1)) {
                        Tile::Floor
                    } else {
                        old(self).cell(xx, yy)
                    }) by {
                        crate::grid::lemma_row_major_index_in_range(
                            self.width as int,
                            self.height as int,
                            xx,
                            yy,
                        );
                        assert(self.tiles@ == prev.tiles@.update(idx as int, Tile::Floor));
                        assert(prev.cell(xx, yy) == (if room.spec_interior_contains(xx, yy) && (yy
                            < y || (yy == y && xx < x)) {
                            Tile::Floor
                        } else {
                            old(self).cell(xx, yy)
                        }));
                        if xx + yy * self.width == x + y * self.width {
                            lemma_row_major_distinct(self.width as int, xx, yy, x as int, y as int);
                        }
                    }
                }
                x = x + 1;
            }
            y = y + 1;
        }
        let ghost done = *self;
        let cx: i32 = (room.x1 + room.x2) / 2;
        let cy: i32 = (room.y1 + room.y2) / 2;
        self.player_spawns.push((cx, cy));
        proof {
            assert forall|xx: int, yy: int|
                old(self).spec_in_bounds(xx, yy) implies #[trigger] self.cell(xx, yy) == (
            if room.spec_interior_contains(xx, yy) {
                Tile::Floor
            } else {
                old(self).cell(xx, yy)
            }) by {
                assert(done.cell(xx, yy) == (if room.spec_interior_contains(xx, yy) && yy < room.y2
                    + 1 {
                    Tile::Floor
                } else {
                    old(self).cell(xx, yy)
                }));
                assert(self.cell(xx, yy) == done.cell(xx, yy));
            }
        }
    }

    /// Carve a horizontal tunnel segment at row `y`, endpoints included.
    pub(crate) fn apply_horizontal_tunnel(&mut self, y: i32, x_a: i32, x_b: i32)
        requires
            old(self).wf(),
            tunnel_wf_in(
                Tunnel::Horizontal { y, x_a, x_b },
                old(self).width as int,
                old(self).height as int,
            ),
        ensures
            final(self).wf(),
            final(self).width == old(self).width,
            final(self).height == old(self).height,
            final(self).depth == old(self).depth,
            final(self).player_spawns@ == old(self).player_spawns@,
            forall|xx: int, yy: int|
                old(self).spec_in_bounds(xx, yy) ==> #[trigger] final(self).cell(xx, yy) == (
                if tunnel_covers(Tunnel::Horizontal { y, x_a, x_b }, xx, yy) {
                    Tile::Floor
                } else {
                    old(self).cell(xx, yy)
                }),
    {
        let lo: i32 = if x_a <= x_b { x_a } else { x_b };
        let hi: i32 = if x_a <= x_b { x_b } else { x_a };
        let mut x: i32 = lo;
        while x <= hi
            invariant
                self.wf(),
                self.width == old(self).width,
                self.height == old(self).height,
                self.depth == old(self).depth,
                self.player_spawns@ == old(self).player_spawns@,
                0 <= y < self.height,
                0 <= lo <= x,
                x <= hi + 1,
                hi < self.width,
                lo == (if x_a <= x_b { x_a } else { x_b }),
                hi == (if x_a <= x_b { x_b } else { x_a }),
                forall|xx: int, yy: int|
                    old(self).spec_in_bounds(xx, yy) ==> #[trigger] self.cell(xx, yy) == (
                    if yy == y && lo <= xx < x {
                        Tile::Floor
                    } else {
                        old(self).cell(xx, yy)
                    }),
            decreases hi + 1 - x,
        {
            let ghost prev = *self;
            let idx = self.xy_idx(x, y);
            self.tiles[idx] = Tile::Floor;
            proof {
                assert forall|xx: int, yy: int|
                    old(self).spec_in_bounds(xx, yy) implies #[trigger] self.cell(xx, yy) == (
                if yy == y && lo <= xx < x + 1 {
                    Tile::Floor
                } else {
                    old(self).cell(xx, yy)
                }) by {
                    crate::grid::lemma_row_major_index_in_range(
                        self.width as int,
                        self.height as int,
                        xx,
                        yy,
                    );
                    assert(self.tiles@ == prev.tiles@.update(idx as int, Tile::Floor));
                    assert(prev.cell(xx, yy) == (if yy == y && lo <= xx < x {
                        Tile::Floor
                    } else {
                        old(self).cell(xx, yy)
                    }));
                    if xx + yy * self.width == x + y * self.width {
                        lemma_row_major_distinct(self.width as int, xx, yy, x as int, y as int);
                    }
                }
            }
            x = x + 1;
        }
    }

    /// Carve a vertical tunnel segment at column `x`, endpoints included.
    pub(crate) fn apply_vertical_tunnel(&mut self, x: i32, y_a: i32, y_b: i32)
        requires
            old(self).wf(),
            tunnel_wf_in(
                Tunnel::Vertical { x, y_a, y_b },
                old(self).width as int,
                old(self).height as int,
            ),
        ensures
            final(self).wf(),
            final(self).width == old(self).width,
            final(self).height == old(self).height,
            final(self).depth == old(self).depth,
            final(self).player_spawns@ == old(self).player_spawns@,
            forall|xx: int, yy: int|
                old(self).spec_in_bounds(xx, yy) ==> #[trigger] final(self).cell(xx, yy) == (
                if tunnel_covers(Tunnel::Vertical { x, y_a, y_b }, xx, yy) {
                    Tile::Floor
                } else {
                    old(self).cell(xx, yy)
                }),
    {
        let lo: i32 = if y_a <= y_b { y_a } else { y_b };
        let hi: i32 = if y_a <= y_b { y_b } else { y_a };
        let mut y: i32 = lo;
        while y <= hi
            invariant
                self.wf(),
                self.width == old(self).width,
                self.height == old(self).height,
                self.depth == old(self).depth,
                self.player_spawns@ == old(self).player_spawns@,
                0 <= x < self.width,
                0 <= lo <= y,
                y <= hi + 1,
                hi < self.height,
                lo == (if y_a <= y_b { y_a } else { y_b }),
                hi == (if y_a <= y_b { y_b } else { y_a }),
                forall|xx: int, yy: int|
                    old(self).spec_in_bounds(xx, yy) ==> #[trigger] self.cell(xx, yy) == (
                    if xx == x && lo <= yy < y {
                        Tile::Floor
                    } else {
                        old(self).cell(xx, yy)
                    }),
            decreases hi + 1 - y,
        {
            let ghost prev = *self;
            let idx = self.xy_idx(x, y);
            self.tiles[idx] = Tile::Floor;
            proof {
                assert forall|xx: int, yy: int|
                    old(self).spec_in_bounds(xx, yy) implies #[trigger] self.cell(xx, yy) == (
                if xx == x && lo <= yy < y + 1 {
                    Tile::Floor
                } else {
                    old(self).cell(xx, yy)
                }) by {
                    crate::grid::lemma_row_major_index_in_range(
                        self.width as int,
                        self.height as int,
                        xx,
                        yy,
                    );
                    assert(self.tiles@ == prev.tiles@.update(idx as int, Tile::Floor));
                    assert(prev.cell(xx, yy) == (if xx == x && lo <= yy < y {
                        Tile::Floor
                    } else {
                        old(self).cell(xx, yy)
                    }));
                    if xx + yy * self.width == x + y * self.width {
                        lemma_row_major_distinct(self.width as int, xx, yy, x as int, y as int);
                    }
                }
            }
            y = y + 1;
        }
    }
}

/// The outcome of one placement attempt: the accepted rooms, the carved
/// tunnels, and the generator state after the draws the attempt consumed.
///
/// Draw order is fixed: room width, room height; if the candidate fits the
/// grid, a left edge and a top edge; if it overlaps no accepted room and is
/// not the first, one coin for the tunnel elbow orientation.  Failed
/// placements are dropped, never retried.
pub open spec fn plan_attempt(
    w: int,
    h: int,
    min_s: int,
    max_s: int,
    rooms: Seq<Room>,
    tunnels: Seq<Tunnel>,
    s: u64,
) -> (Seq<Room>, Seq<Tunnel>, u64) {
    let rw = rng_range(s, min_s, max_s);
    let s1 = rng_step(s);
    let rh = rng_range(s1, min_s, max_s);
    let s2 = rng_step(s1);
    if rw >= w || rh >= h {
        (rooms, tunnels, s2)
    } else {
        let rx = rng_range(s2, 0, w - rw - 1);
        let s3 = rng_step(s2);
        let ry = rng_range(s3, 0, h - rh - 1);
        let s4 = rng_step(s3);
        let room = Room {
            x1: rx as i32,
            y1: ry as i32,
            x2: (rx + rw) as i32,
            y2: (ry + rh) as i32,
        };
        if exists|k: int| 0 <= k < rooms.len() && room.spec_intersect(#[trigger] rooms[k]) {
            (rooms, tunnels, s4)
        } else if rooms.len() == 0 {
            (rooms.push(room), tunnels, s4)
        } else {
            let prev = rooms.last().spec_center();
            let cur = room.spec_center();
            let s5 = rng_step(s4);
            if rng_coin(s4) {
                (
                    rooms.push(room),
                    tunnels.push(
                        Tunnel::Horizontal {
                            y: prev.1 as i32,
                            x_a: prev.0 as i32,
                            x_b: cur.0 as i32,
                        },
                    ).push(
                        Tunnel::Vertical { x: cur.0 as i32, y_a: prev.1 as i32, y_b: cur.1 as i32 },
                    ),
                    s5,
                )
            } else {
                (
                    rooms.push(room),
                    tunnels.push(
                        Tunnel::Vertical { x: prev.0 as i32, y_a: prev.1 as i32, y_b: cur.1 as i32 },
                    ).push(
                        Tunnel::Horizontal {
                            y: cur.1 as i32,
                            x_a: prev.0 as i32,
                            x_b: cur.0 as i32,
                        },
                    ),
                    s5,
                )
            }
        }
    }
}

/// The rooms, tunnels and final generator state after running `attempts`
/// placement attempts from the given accumulators and state.
pub open spec fn plan_rooms_rec(
    w: int,
    h: int,
    min_s: int,
    max_s: int,
    attempts: nat,
    rooms: Seq<Room>,
    tunnels: Seq<Tunnel>,
    s: u64,
) -> (Seq<Room>, Seq<Tunnel>, u64)
    decreases attempts,
{
    if attempts == 0 {
        (rooms, tunnels, s)
    } else {
        let step = plan_attempt(w, h, min_s, max_s, rooms, tunnels, s);
        plan_rooms_rec(w, h, min_s, max_s, (attempts - 1) as nat, step.0, step.1, step.2)
    }
}

/// The complete plan of a generation pass from seed state `s`.
pub open spec fn spec_plan(
    w: int,
    h: int,
    max_rooms: int,
    min_s: int,
    max_s: int,
    s: u64,
) -> (Seq<Room>, Seq<Tunnel>, u64) {
    plan_rooms_rec(w, h, min_s, max_s, max_rooms as nat, Seq::empty(), Seq::empty(), s)
}

/// Room sizes are acceptable: positive, and the minimum no larger than the
/// maximum.
pub open spec fn size_config_ok(min_s: int, max_s: int) -> bool {
    1 <= min_s <= max_s
}

/// The grid can hold at least one room of the smallest size.
pub open spec fn grid_fits_room(w: int, h: int, min_s: int) -> bool {
    min_s < w && min_s < h
}

/// Everything `generate` promises about an accepted grid: the accepted rooms
/// and the spawn points follow the plan of the seed state, the rooms pairwise
/// fail the inclusive overlap test, and each cell is floor exactly when a
/// room interior or a tunnel carved it.
pub open spec fn generate_ok_post(
    w: int,
    h: int,
    max_rooms: int,
    min_s: int,
    max_s: int,
    s0: u64,
    s1: u64,
    grid: Grid,
    out_rooms: Seq<Room>,
) -> bool {
    let plan = spec_plan(w, h, max_rooms, min_s, max_s, s0);
    &&& out_rooms == plan.0
    &&& s1 == plan.2
    &&& grid.wf()
    &&& grid.width == w
    &&& grid.height == h
    &&& forall|k: int| 0 <= k < plan.0.len() ==> (#[trigger] plan.0[k]).wf_in(w, h)
    &&& rooms_separated(plan.0)
    &&& grid.player_spawns@.len() == plan.0.len()
    &&& forall|k: int|
        0 <= k < plan.0.len() ==> #[trigger] grid.player_spawns@[k] == (
        (#[trigger] plan.0[k]).spec_center().0 as i32,
        plan.0[k].spec_center().1 as i32,
        )
    &&& forall|x: int, y: int|
        grid.spec_in_bounds(x, y) ==> #[trigger] grid.cell(x, y) == (if carved(
            plan.0,
            plan.1,
            x,
            y,
        ) {
            Tile::Floor
        } else {
            Tile::Minable(Minable::Stone)
        })
}

/// The full contract of `generate`, covering the rejected configurations too.
pub open spec fn generate_post(
    w: int,
    h: int,
    max_rooms: int,
    min_s: int,
    max_s: int,
    s0: u64,
    s1: u64,
    r: Result<(Grid, Vec<Room>), ConfigError>,
) -> bool {
    if !size_config_ok(min_s, max_s) {
        r === Err(ConfigError::InvalidRoomSizes) && s1 == s0
    } else if !grid_fits_room(w, h, min_s) {
        r === Err(ConfigError::GridTooSmall) && s1 == s0
    } else {
        r matches Ok(ok) && generate_ok_post(w, h, max_rooms, min_s, max_s, s0, s1, ok.0, ok.1@)
    }
}

/// Generate a dungeon level: place up to `max_rooms` random non-overlapping
/// rooms with side lengths drawn from `[min_size, max_size]`, carve their
/// interiors, connect consecutive room centers with two straight tunnel
/// segments in a random order, and record each accepted room's center as a
/// spawn point, in acceptance order.
///
/// The pass consumes only draws from `rng`, so a fixed seed reproduces an
/// identical grid and spawn list; `generate_post` pins the result down
/// exactly.  A degenerate outcome with zero accepted rooms is possible and
/// left to the caller to detect by checking the spawn list.
pub fn generate(
    width: usize,
    height: usize,
    max_rooms: usize,
    min_size: i32,
    max_size: i32,
    rng: &mut Rng,
) -> (r: Result<(Grid, Vec<Room>), ConfigError>)
    requires
        width <= 0x4000_0000,
        height <= 0x4000_0000,
        width * height <= usize::MAX,
    ensures
        generate_post(
            width as int,
            height as int,
            max_rooms as int,
            min_size as int,
            max_size as int,
            old(rng).state,
            final(rng).state,
            r,
        ),
{
    if !(1 <= min_size && min_size <= max_size) {
        return Err(ConfigError::InvalidRoomSizes);
    }
    if !((min_size as usize) < width && (min_size as usize) < height) {
        return Err(ConfigError::GridTooSmall);
    }
    let ghost s0 = rng.state;
    let ghost w = width as int;
    let ghost h = height as int;
    let mut grid = Grid::walled(width, height);
    let mut rooms: Vec<Room> = Vec::new();
    let mut tunnels: Vec<Tunnel> = Vec::new();
    let mut attempt: usize = 0;
    while attempt < max_rooms
        invariant
            1 <= min_size <= max_size,
            (min_size as int) < w,
            (min_size as int) < h,
            1 <= w <= 0x4000_0000,
            1 <= h <= 0x4000_0000,
            attempt <= max_rooms,
            grid.wf(),
            grid.width == width,
            grid.height == height,
            w == width as int,
            h == height as int,
            forall|k: int| 0 <= k < rooms@.len() ==> (#[trigger] rooms@[k]).wf_in(w, h),
            forall|k: int| 0 <= k < tunnels@.len() ==> tunnel_wf_in(#[trigger] tunnels@[k], w, h),
            rooms_separated(rooms@),
            grid.player_spawns@.len() == rooms@.len(),
            forall|k: int|
                0 <= k < rooms@.len() ==> #[trigger] grid.player_spawns@[k] == (
                (#[trigger] rooms@[k]).spec_center().0 as i32,
                rooms@[k].spec_center().1 as i32,
                ),
            forall|x: int, y: int|
                grid.spec_in_bounds(x, y) ==> #[trigger] grid.cell(x, y) == (if carved(
                    rooms@,
                    tunnels@,
                    x,
                    y,
                ) {
                    Tile::Floor
                } else {
                    Tile::Minable(Minable::Stone)
                }),
            plan_rooms_rec(
                w,
                h,
                min_size as int,
                max_size as int,
                (max_rooms - attempt) as nat,
                rooms@,
                tunnels@,
                rng.state,
            ) == spec_plan(w, h, max_rooms as int, min_size as int, max_size as int, s0),
        decreases max_rooms - attempt,
    {
        let ghost rooms0 = rooms@;
        let ghost tunnels0 = tunnels@;
        let ghost s_iter = rng.state;
        let rw = rng.range_i32(min_size, max_size);
        let rh = rng.range_i32(min_size, max_size);
        if (rw as usize) < width && (rh as usize) < height {
            let rx = rng.range_i32(0, width as i32 - rw - 1);
            let ry = rng.range_i32(0, height as i32 - rh - 1);
            let room = Room { x1: rx, y1: ry, x2: rx + rw, y2: ry + rh };
            let mut overlaps = false;
            let mut k: usize = 0;
            while k < rooms.len()
                invariant
                    k <= rooms@.len(),
                    overlaps == exists|j: int|
                        0 <= j < k && room.spec_intersect(#[trigger] rooms@[j]),
                decreases rooms@.len() - k,
            {
                if room.intersect(&rooms[k]) {
                    overlaps = true;
                }
                k = k + 1;
            }
            if !overlaps {
                if rooms.len() == 0 {
                    grid.apply_room_to_map(&room);
                    rooms.push(room);
                    proof {
                        assert forall|x: int, y: int| grid.spec_in_bounds(x, y) implies #[trigger] grid.cell(
                            x,
                            y,
                        ) == (if carved(rooms@, tunnels@, x, y) {
                            Tile::Floor
                        } else {
                            Tile::Minable(Minable::Stone)
                        }) by {
                            lemma_rooms_cover_push(rooms0, room, x, y);
                        }
                    }
                } else {
                    let prev_center = rooms[rooms.len() - 1].center();
                    let cur_center = room.center();
                    grid.apply_room_to_map(&room);
                    let horizontal_first = rng.coin();
                    let h_seg = Tunnel::Horizontal {
                        y: if horizontal_first { prev_center.1 } else { cur_center.1 },
                        x_a: prev_center.0,
                        x_b: cur_center.0,
                    };
                    let v_seg = Tunnel::Vertical {
                        x: if horizontal_first { cur_center.0 } else { prev_center.0 },
                        y_a: prev_center.1,
                        y_b: cur_center.1,
                    };
                    let ghost t_first = if horizontal_first { h_seg } else { v_seg };
                    let ghost t_second = if horizontal_first { v_seg } else { h_seg };
                    if horizontal_first {
                        grid.apply_horizontal_tunnel(prev_center.1, prev_center.0, cur_center.0);
                        grid.apply_vertical_tunnel(cur_center.0, prev_center.1, cur_center.1);
                        tunnels.push(h_seg);
                        tunnels.push(v_seg);
                    } else {
                        grid.apply_vertical_tunnel(prev_center.0, prev_center.1, cur_center.1);
                        grid.apply_horizontal_tunnel(cur_center.1, prev_center.0, cur_center.0);
                        tunnels.push(v_seg);
                        tunnels.push(h_seg);
                    }
                    rooms.push(room);
                    proof {
                        assert(tunnels@ == tunnels0.push(t_first).push(t_second));
                        assert forall|x: int, y: int| grid.spec_in_bounds(x, y) implies #[trigger] grid.cell(
                            x,
                            y,
                        ) == (if carved(rooms@, tunnels@, x, y) {
                            Tile::Floor
                        } else {
                            Tile::Minable(Minable::Stone)
                        }) by {
                            lemma_rooms_cover_push(rooms0, room, x, y);
                            lemma_tunnels_cover_push(tunnels0, t_first, x, y);
                            lemma_tunnels_cover_push(tunnels0.push(t_first), t_second, x, y);
                        }
                    }
                }
            }
        }
        proof {
            let step = plan_attempt(w, h, min_size as int, max_size as int, rooms0, tunnels0, s_iter);
            assert(step == (rooms@, tunnels@, rng.state));
            assert(plan_rooms_rec(
                w,
                h,
                min_size as int,
                max_size as int,
                (max_rooms - attempt) as nat,
                rooms0,
                tunnels0,
                s_iter,
            ) == plan_rooms_rec(
                w,
                h,
                min_size as int,
                max_size as int,
                (max_rooms - attempt - 1) as nat,
                step.0,
                step.1,
                step.2,
            ));
        }
        attempt = attempt + 1;
    }
    Ok((grid, rooms))
}

/// The fixed seed the demonstration level is built from.
pub const SIMPLE_LEVEL_SEED: u64 = 0x5EED_CAFE;

/// The contents of a fully walled `w` by `h` grid with one room interior
/// carved to floor.
pub open spec fn single_room_tiles(w: int, h: int, room: Room) -> Seq<Tile> {
    Seq::new(
        (w * h) as nat,
        |i: int|
            if room.spec_interior_contains(i % w, i / w) {
                Tile::Floor
            } else {
                Tile::Minable(Minable::Stone)
            },
    )
}

impl Grid {
    /// The fixed demonstration level: an 80 by 50 grid of solid stone with
    /// one carved room, its center recorded as the only spawn point, and
    /// mineral veins seeded from a fixed seed.
    pub fn simple_80x50() -> (r: Grid)
        ensures
            r.wf(),
            r.width == 80,
            r.height == 50,
            r.depth == 1,
            r.player_spawns@.len() == 1,
            r.player_spawns@[0] == (40i32, 25i32),
            r.tiles@ == crate::grid::spec_seed_veins(
                single_room_tiles(80, 50, Room { x1: 30, y1: 15, x2: 50, y2: 35 }),
                80,
                50,
                SIMPLE_LEVEL_SEED,
                crate::grid::VEIN_COUNT as nat,
            ).0,
            forall|i: int|
                0 <= i < r.tiles@.len() ==> #[trigger] r.tiles@[i] == single_room_tiles(
                    80,
                    50,
                    Room { x1: 30, y1: 15, x2: 50, y2: 35 },
                )[i] || (single_room_tiles(80, 50, Room { x1: 30, y1: 15, x2: 50, y2: 35 })[i]
                    === Tile::Minable(Minable::Stone) && crate::grid::spec_is_ore(r.tiles@[i])),
    {
        let mut grid = Grid::walled(80, 50);
        let room = Room { x1: 30, y1: 15, x2: 50, y2: 35 };
        grid.apply_room_to_map(&room);
        proof {
            assert forall|i: int| 0 <= i < grid.tiles@.len() implies grid.tiles@[i]
                == single_room_tiles(80, 50, room)[i] by {
                crate::grid::lemma_row_major_index_inverse(80, 50, i);
                let x = i % 80;
                let y = i / 80;
                assert(grid.cell(x, y) == (if room.spec_interior_contains(x, y) {
                    Tile::Floor
                } else {
                    Tile::Minable(Minable::Stone)
                }));
                assert(grid.spec_idx(x, y) == i);
            }
            assert(grid.tiles@ =~= single_room_tiles(80, 50, room));
        }
        let mut rng = Rng::new(SIMPLE_LEVEL_SEED);
        grid.seed_ore_veins(&mut rng);
        grid
    }
}

/// Determinism of generation: two outcomes that both satisfy `generate`'s
/// contract for the same dimensions, limits and seed state are the same
/// level — the same cells, the same spawn points, the same accepted rooms,
/// and the same final generator state.
#[verifier::rlimit(50)]
pub proof fn lemma_generate_deterministic(
    w: int,
    h: int,
    max_rooms: int,
    min_s: int,
    max_s: int,
    s0: u64,
    sa: u64,
    sb: u64,
    ra: Result<(Grid, Vec<Room>), ConfigError>,
    rb: Result<(Grid, Vec<Room>), ConfigError>,
)
    requires
        generate_post(w, h, max_rooms, min_s, max_s, s0, sa, ra),
        generate_post(w, h, max_rooms, min_s, max_s, s0, sb, rb),
    ensures
        sa == sb,
        ra is Err <==> rb is Err,
        ra is Err ==> ra == rb,
        ra is Ok && rb is Ok ==> {
            &&& ra.unwrap().0.width == rb.unwrap().0.width
            &&& ra.unwrap().0.height == rb.unwrap().0.height
            &&& ra.unwrap().0.tiles@ == rb.unwrap().0.tiles@
            &&& ra.unwrap().0.player_spawns@ == rb.unwrap().0.player_spawns@
            &&& ra.unwrap().1@ == rb.unwrap().1@
        },
{
    if size_config_ok(min_s, max_s) && grid_fits_room(w, h, min_s) {
        let a = ra.unwrap();
        let b = rb.unwrap();
        let plan = spec_plan(w, h, max_rooms, min_s, max_s, s0);
        assert(a.1@ == plan.0 && b.1@ == plan.0);
        assert forall|k: int| 0 <= k < a.0.player_spawns@.len() implies a.0.player_spawns@[k]
            == b.0.player_spawns@[k] by {
            assert(a.0.player_spawns@[k] == (
                plan.0[k].spec_center().0 as i32,
                plan.0[k].spec_center().1 as i32,
            ));
            assert(b.0.player_spawns@[k] == (
                plan.0[k].spec_center().0 as i32,
                plan.0[k].spec_center().1 as i32,
            ));
        }
        assert(a.0.player_spawns@ =~= b.0.player_spawns@);
        assert forall|i: int| 0 <= i < a.0.tiles@.len() implies a.0.tiles@[i] == b.0.tiles@[i] by {
            crate::grid::lemma_row_major_index_inverse(w, h, i);
            let x = i % w;
            let y = i / w;
            assert(a.0.cell(x, y) == b.0.cell(x, y));
            assert(a.0.spec_idx(x, y) == i);
        }
        assert(a.0.tiles@ =~= b.0.tiles@);
    }
}

/// Two coordinate pairs with equal row-major indices are equal coordinates.
pub proof fn lemma_row_major_distinct(w: int, ax: int, ay: int, bx: int, by: int)
    requires
        1 <= w,
        0 <= ax < w,
        0 <= bx < w,
        0 <= ay,
        0 <= by,
        ax + ay * w == bx + by * w,
    ensures
        ax == bx && ay == by,
{
    assert(ax == bx && ay == by) by (nonlinear_arith)
        requires 1 <= w && 0 <= ax < w && 0 <= bx < w && 0 <= ay && 0 <= by && ax + ay * w == bx
            + by * w;
}

} // verus!
