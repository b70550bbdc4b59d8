//! The tile grid: a homogeneous 2D cell array indexed row-major, with the
//! derived movement and sight attributes, plus the randomized mineral vein
//! growth pass that mutates solid rock into ore deposits.

use vstd::prelude::*;

verus! {

use crate::rng::{Rng, rng_step, rng_range};

/// A mineral cell kind: solid rock, or an ore deposit.
#[derive(PartialEq, Eq, Structural, Copy, Clone, Debug)]
pub enum Minable {
    Stone,
    Iron,
    Copper,
}

/// One cell of the grid: open floor, or minable matter.
#[derive(PartialEq, Eq, Structural, Copy, Clone, Debug)]
pub enum Tile {
    Floor,
    Minable(Minable),
}

/// Whether a cell blocks movement.
pub open spec fn spec_blocked(t: Tile) -> bool {
    t !== Tile::Floor
}

/// Whether a cell blocks line of sight.
pub open spec fn spec_blocks_sight(t: Tile) -> bool {
    t !== Tile::Floor
}

/// Whether a cell is an ore deposit (minable by the player).
pub open spec fn spec_is_ore(t: Tile) -> bool {
    t === Tile::Minable(Minable::Iron) || t === Tile::Minable(Minable::Copper)
}

impl Tile {
    /// Derived movement attribute: every minable cell blocks movement.
    pub fn blocked(&self) -> (r: bool)
        ensures
            r == spec_blocked(*self),
    {
        match self {
            Tile::Floor => false,
            Tile::Minable(_) => true,
        }
    }

    /// Derived sight attribute: every minable cell blocks sight.
    pub fn blocks_sight(&self) -> (r: bool)
        ensures
            r == spec_blocks_sight(*self),
    {
        match self {
            Tile::Floor => false,
            Tile::Minable(_) => true,
        }
    }

    /// Whether this cell is an ore deposit.
    pub fn is_ore(&self) -> (r: bool)
        ensures
            r == spec_is_ore(*self),
    {
        match self {
            Tile::Minable(Minable::Iron) => true,
            Tile::Minable(Minable::Copper) => true,
            _ => false,
        }
    }
}

/// A single dungeon level: cells in row-major order (`x + y * width`), and the
/// ordered spawn points emitted by room generation.
pub struct Grid {
    pub width: usize,
    pub height: usize,
    pub depth: usize,
    pub tiles: Vec<Tile>,
    pub player_spawns: Vec<(i32, i32)>,
}

impl Grid {
    /// Well-formedness: one level deep, dimensions positive and small enough
    /// that every index and every geometric product below fits its machine
    /// type, and exactly `width * height` cells.
    pub open spec fn wf(self) -> bool {
        &&& 1 <= self.width <= 0x4000_0000
        &&& 1 <= self.height <= 0x4000_0000
        &&& self.width * self.height <= usize::MAX
        &&& self.depth == 1
        &&& self.tiles@.len() == self.width * self.height
    }

    /// Whether `(x, y)` is a coordinate of this grid.
    pub open spec fn spec_in_bounds(self, x: int, y: int) -> bool {
        0 <= x < self.width && 0 <= y < self.height
    }

    /// The row-major cell index of `(x, y)`.
    pub open spec fn spec_idx(self, x: int, y: int) -> int {
        x + y * self.width
    }

    /// The cell at coordinate `(x, y)`.
    pub open spec fn cell(self, x: int, y: int) -> Tile {
        self.tiles@[self.spec_idx(x, y)]
    }

    /// A fully walled level: every cell is solid stone, no spawn points yet.
    pub fn walled(width: usize, height: usize) -> (r: Grid)
        requires
            1 <= width <= 0x4000_0000,
            1 <= height <= 0x4000_0000,
            width * height <= usize::MAX,
        ensures
            r.wf(),
            r.width == width,
            r.height == height,
            r.depth == 1,
            r.player_spawns@.len() == 0,
            forall|x: int, y: int|
                r.spec_in_bounds(x, y) ==> #[trigger] r.cell(x, y) == Tile::Minable(Minable::Stone),
    {
        let count: usize = width * height;
        let mut tiles: Vec<Tile> = Vec::new();
        let mut i: usize = 0;
        while i < count
            invariant
                i <= count,
                tiles@.len() == i,
                forall|j: int| 0 <= j < i ==> tiles@[j] == Tile::Minable(Minable::Stone),
            decreases count - i,
        {
            tiles.push(Tile::Minable(Minable::Stone));
            i = i + 1;
        }
        let r = Grid { width, height, depth: 1, tiles, player_spawns: Vec::new() };
        proof {
            assert forall|x: int, y: int| r.spec_in_bounds(x, y) implies #[trigger] r.cell(x, y)
                == Tile::Minable(Minable::Stone) by {
                lemma_row_major_index_in_range(width as int, height as int, x, y);
            }
        }
        r
    }

    pub fn in_bounds(&self, x: i32, y: i32) -> (r: bool)
        requires
            self.wf(),
        ensures
            r == self.spec_in_bounds(x as int, y as int),
    {
        0 <= x && (x as usize) < self.width && 0 <= y && (y as usize) < self.height
    }

    /// The row-major index of an in-bounds coordinate.
    pub fn xy_idx(&self, x: i32, y: i32) -> (r: usize)
        requires
            self.wf(),
            self.spec_in_bounds(x as int, y as int),
        ensures
            r == self.spec_idx(x as int, y as int),
            r < self.tiles@.len(),
    {
        proof {
            lemma_row_major_index_in_range(
                self.width as int,
                self.height as int,
                x as int,
                y as int,
            );
        }
        (y as usize * self.width) + x as usize
    }

    /// The inverse of `xy_idx`, returned as `(row, column)`, that is `(y, x)`.
    pub fn idx_xy(&self, pos: usize) -> (r: (i32, i32))
        requires
            self.wf(),
            pos < self.tiles@.len(),
        ensures
            r.0 == pos as int / self.width as int,
            r.1 == pos as int % self.width as int,
            self.spec_in_bounds(r.1 as int, r.0 as int),
            self.spec_idx(r.1 as int, r.0 as int) == pos,
    {
        proof {
            lemma_row_major_index_inverse(self.width as int, self.height as int, pos as int);
        }
        ((pos / self.width) as i32, (pos % self.width) as i32)
    }
}

/// How many veins one seeding pass attempts.
pub const VEIN_COUNT: usize = 10;

/// How many frontier-expansion iterations grow each vein.
pub const GROWTH_STEPS: usize = 15;

/// One neighbor admission during frontier expansion: the candidate index `c`
/// joins the frontier when its bounds check `ok` passes and it sits in
/// neither the vein nor the frontier already.
pub open spec fn admit_neighbor(vein: Seq<usize>, frontier: Seq<usize>, ok: bool, c: int) -> Seq<
    usize,
> {
    if ok && !vein.contains(c as usize) && !frontier.contains(c as usize) {
        frontier.push(c as usize)
    } else {
        frontier
    }
}

/// One growth iteration: a uniformly chosen frontier index moves into the
/// vein, its four axis neighbors are admitted to the frontier with true
/// row- and column-aware bounds checks (north, south, east, west, in that
/// order), and the chosen index leaves the frontier.
pub open spec fn spec_grow_step(
    w: int,
    h: int,
    vein: Seq<usize>,
    frontier: Seq<usize>,
    s: u64,
) -> (Seq<usize>, Seq<usize>, u64)
    recommends
        frontier.len() > 0,
{
    let next = rng_range(s, 0, frontier.len() - 1);
    let s1 = rng_step(s);
    let pos = frontier[next] as int;
    let x = pos % w;
    let y = pos / w;
    let vein1 = vein.push(frontier[next]);
    let f1 = admit_neighbor(vein1, frontier, y > 0, pos - w);
    let f2 = admit_neighbor(vein1, f1, y < h - 1, pos + w);
    let f3 = admit_neighbor(vein1, f2, x < w - 1, pos + 1);
    let f4 = admit_neighbor(vein1, f3, x > 0, pos - 1);
    (vein1, f4.remove(next), s1)
}

/// The vein accumulated by `steps` growth iterations.  An exhausted frontier
/// abandons the rest of the growth; the vein gathered so far survives.
pub open spec fn spec_grow(
    w: int,
    h: int,
    vein: Seq<usize>,
    frontier: Seq<usize>,
    s: u64,
    steps: nat,
) -> (Seq<usize>, u64)
    decreases steps,
{
    if steps == 0 {
        (vein, s)
    } else if frontier.len() == 0 {
        (vein, s)
    } else {
        let st = spec_grow_step(w, h, vein, frontier, s);
        spec_grow(w, h, st.0, st.1, st.2, (steps - 1) as nat)
    }
}

/// The cells of one vein attempt seeded at `pos`: empty, consuming no draws,
/// unless the seed cell is currently solid stone.
pub open spec fn spec_vein_cells(tiles: Seq<Tile>, w: int, h: int, pos: int, s: u64) -> (
    Seq<usize>,
    u64,
) {
    if tiles[pos] === Tile::Minable(Minable::Stone) {
        spec_grow(w, h, Seq::empty(), seq![pos as usize], s, GROWTH_STEPS as nat)
    } else {
        (Seq::<usize>::empty(), s)
    }
}

/// Convert the vein's cells to `ore`, in order; only cells still solid stone
/// at conversion time change.
pub open spec fn convert_vein(tiles: Seq<Tile>, vein: Seq<usize>, ore: Tile) -> Seq<Tile>
    decreases vein.len(),
{
    if vein.len() == 0 {
        tiles
    } else {
        let t1 = if tiles[vein[0] as int] === Tile::Minable(Minable::Stone) {
            tiles.update(vein[0] as int, ore)
        } else {
            tiles
        };
        convert_vein(t1, vein.drop_first(), ore)
    }
}

/// One complete vein: an ore kind drawn uniformly from copper and iron, a
/// seed cell drawn uniformly over the whole grid, growth, then conversion.
pub open spec fn spec_vein_pass(tiles: Seq<Tile>, w: int, h: int, s: u64) -> (Seq<Tile>, u64) {
    let kind_idx = rng_range(s, 0, 1);
    let s1 = rng_step(s);
    let ore = if kind_idx == 0 {
        Tile::Minable(Minable::Copper)
    } else {
        Tile::Minable(Minable::Iron)
    };
    let pos = rng_range(s1, 0, w * h - 1);
    let s2 = rng_step(s1);
    let g = spec_vein_cells(tiles, w, h, pos, s2);
    (convert_vein(tiles, g.0, ore), g.1)
}

/// The grid contents and generator state after seeding `count` veins.
pub open spec fn spec_seed_veins(tiles: Seq<Tile>, w: int, h: int, s: u64, count: nat) -> (
    Seq<Tile>,
    u64,
)
    decreases count,
{
    if count == 0 {
        (tiles, s)
    } else {
        let p = spec_vein_pass(tiles, w, h, s);
        spec_seed_veins(p.0, w, h, p.1, (count - 1) as nat)
    }
}

/// Whether membership scanning finds `target` in `v`.
fn vec_contains(v: &Vec<usize>, target: usize) -> (r: bool)
    ensures
        r == v@.contains(target),
{
    let mut i: usize = 0;
    let mut found = false;
    while i < v.len()
        invariant
            i <= v@.len(),
            found == exists|j: int| 0 <= j < i && v@[j] == target,
        decreases v@.len() - i,
    {
        if v[i] == target {
            found = true;
        }
        i = i + 1;
    }
    found
}

impl Grid {
    /// One frontier-expansion iteration of vein growth, consuming one draw.
    pub(crate) fn try_grow_ore_vein(
        &self,
        vein: &mut Vec<usize>,
        frontiers: &mut Vec<usize>,
        rng: &mut Rng,
    )
        requires
            self.wf(),
            old(frontiers)@.len() > 0,
            forall|k: int| 0 <= k < old(frontiers)@.len() ==> old(frontiers)@[k] < self.tiles@.len(),
            forall|k: int| 0 <= k < old(vein)@.len() ==> old(vein)@[k] < self.tiles@.len(),
        ensures
            (final(vein)@, final(frontiers)@, final(rng).state) == spec_grow_step(
                self.width as int,
                self.height as int,
                old(vein)@,
                old(frontiers)@,
                old(rng).state,
            ),
            forall|k: int| 0 <= k < final(frontiers)@.len() ==> final(frontiers)@[k] < self.tiles@.len(),
            forall|k: int| 0 <= k < final(vein)@.len() ==> final(vein)@[k] < self.tiles@.len(),
    {
        let ghost w = self.width as int;
        let ghost h = self.height as int;
        let ghost f0 = frontiers@;
        let next = rng.range_usize(0, frontiers.len() - 1);
        let pos = frontiers[next];
        vein.push(pos);
        let x = pos % self.width;
        let y = pos / self.width;
        proof {
            lemma_row_major_index_inverse(w, h, pos as int);
            let px = pos as int % w;
            let py = pos as int / w;
            assert(py > 0 ==> pos as int >= w) by (nonlinear_arith)
                requires 1 <= w && 0 <= px && px + py * w == pos as int;
            assert(py < h - 1 ==> pos as int + w < w * h) by (nonlinear_arith)
                requires 1 <= w && px < w && px + py * w == pos as int;
            assert(px < w - 1 ==> pos as int + 1 < w * h) by (nonlinear_arith)
                requires 1 <= w && 0 <= px && py < h && px + py * w == pos as int;
        }
        if y > 0 {
            let c: usize = pos - self.width;
            if !vec_contains(vein, c) && !vec_contains(frontiers, c) {
                frontiers.push(c);
            }
        }
        proof {
            assert(frontiers@ == admit_neighbor(vein@, f0, pos as int / w > 0, pos - w));
        }
        let ghost f1 = frontiers@;
        if y < self.height - 1 {
            let c: usize = pos + self.width;
            if !vec_contains(vein, c) && !vec_contains(frontiers, c) {
                frontiers.push(c);
            }
        }
        proof {
            assert(frontiers@ == admit_neighbor(vein@, f1, pos as int / w < h - 1, pos + w));
        }
        let ghost f2 = frontiers@;
        if x < self.width - 1 {
            let c: usize = pos + 1;
            if !vec_contains(vein, c) && !vec_contains(frontiers, c) {
                frontiers.push(c);
            }
        }
        proof {
            assert(frontiers@ == admit_neighbor(vein@, f2, pos as int % w < w - 1, pos + 1));
        }
        let ghost f3 = frontiers@;
        if x > 0 {
            let c: usize = pos - 1;
            if !vec_contains(vein, c) && !vec_contains(frontiers, c) {
                frontiers.push(c);
            }
        }
        proof {
            assert(frontiers@ == admit_neighbor(vein@, f3, pos as int % w > 0, pos - 1));
        }
        frontiers.remove(next);
    }

    /// Attempt one vein seeded at `pos`: `None`, with no draws consumed, when
    /// the seed cell is not solid stone; otherwise the cell indices gathered
    /// by bounded frontier expansion, growth abandoned early only if the
    /// frontier runs empty.
    #[verifier::rlimit(50)]
    pub(crate) fn gen_ore_vein(&self, pos: usize, rng: &mut Rng) -> (r: Option<Vec<usize>>)
        requires
            self.wf(),
            pos < self.tiles@.len(),
        ensures
            r is Some <==> self.tiles@[pos as int] === Tile::Minable(Minable::Stone),
            ({
                let g = spec_vein_cells(
                    self.tiles@,
                    self.width as int,
                    self.height as int,
                    pos as int,
                    old(rng).state,
                );
                &&& final(rng).state == g.1
                &&& (r matches Some(v) ==> v@ == g.0)
            }),
            r matches Some(v) ==> forall|k: int| 0 <= k < v@.len() ==> v@[k] < self.tiles@.len(),
    {
        let ghost w = self.width as int;
        let ghost h = self.height as int;
        let is_stone = match self.tiles[pos] {
            Tile::Minable(Minable::Stone) => true,
            _ => false,
        };
        if !is_stone {
            return None;
        }
        let ghost s_start = rng.state;
        let mut generated: Vec<usize> = Vec::new();
        let mut frontiers: Vec<usize> = Vec::new();
        frontiers.push(pos);
        proof {
            assert(frontiers@ =~= seq![pos]);
        }
        let mut i: usize = 0;
        while i < GROWTH_STEPS && frontiers.len() > 0
            invariant
                self.wf(),
                w == self.width as int,
                h == self.height as int,
                i <= GROWTH_STEPS,
                forall|k: int| 0 <= k < frontiers@.len() ==> frontiers@[k] < self.tiles@.len(),
                forall|k: int| 0 <= k < generated@.len() ==> generated@[k] < self.tiles@.len(),
                spec_grow(
                    w,
                    h,
                    generated@,
                    frontiers@,
                    rng.state,
                    (GROWTH_STEPS - i) as nat,
                ) == spec_grow(w, h, Seq::empty(), seq![pos], s_start, GROWTH_STEPS as nat),
            decreases GROWTH_STEPS - i,
        {
            let ghost v0 = generated@;
            let ghost f0 = frontiers@;
            let ghost s0 = rng.state;
            self.try_grow_ore_vein(&mut generated, &mut frontiers, rng);
            proof {
                let st = spec_grow_step(w, h, v0, f0, s0);
                assert((generated@, frontiers@, rng.state) == st);
                assert(spec_grow(w, h, v0, f0, s0, (GROWTH_STEPS - i) as nat) == spec_grow(
                    w,
                    h,
                    st.0,
                    st.1,
                    st.2,
                    (GROWTH_STEPS - i - 1) as nat,
                ));
            }
            i = i + 1;
        }
        proof {
            assert(spec_grow(w, h, generated@, frontiers@, rng.state, (GROWTH_STEPS - i) as nat)
                == (generated@, rng.state));
        }
        Some(generated)
    }

    /// Seed mineral veins: attempt `VEIN_COUNT` veins, each with a uniformly
    /// drawn ore kind and a uniformly drawn seed cell, grown by bounded
    /// frontier expansion.  Only cells that are solid stone at conversion
    /// time become ore; every other cell is left untouched.  The pass
    /// consumes only draws from `rng`, so a fixed seed reproduces the veins.
    pub fn seed_ore_veins(&mut self, rng: &mut Rng)
        requires
            old(self).wf(),
        ensures
            final(self).wf(),
            final(self).width == old(self).width,
            final(self).height == old(self).height,
            final(self).depth == old(self).depth,
            final(self).player_spawns@ == old(self).player_spawns@,
            (final(self).tiles@, final(rng).state) == spec_seed_veins(
                old(self).tiles@,
                old(self).width as int,
                old(self).height as int,
                old(rng).state,
                VEIN_COUNT as nat,
            ),
            forall|i: int|
                0 <= i < old(self).tiles@.len() ==> #[trigger] final(self).tiles@[i] == old(
                    self,
                ).tiles@[i] || (old(self).tiles@[i] === Tile::Minable(Minable::Stone) && spec_is_ore(
                    final(self).tiles@[i],
                )),
    {
        let ghost w = self.width as int;
        let ghost h = self.height as int;
        let ghost t0 = self.tiles@;
        let ghost s0 = rng.state;
        let mut vein_no: usize = 0;
        while vein_no < VEIN_COUNT
            invariant
                self.wf(),
                w == self.width as int,
                h == self.height as int,
                self.width == old(self).width,
                self.height == old(self).height,
                self.depth == old(self).depth,
                self.player_spawns@ == old(self).player_spawns@,
                t0 == old(self).tiles@,
                self.tiles@.len() == t0.len(),
                vein_no <= VEIN_COUNT,
                spec_seed_veins(self.tiles@, w, h, rng.state, (VEIN_COUNT - vein_no) as nat)
                    == spec_seed_veins(t0, w, h, s0, VEIN_COUNT as nat),
                forall|i: int|
                    0 <= i < t0.len() ==> #[trigger] self.tiles@[i] == t0[i] || (t0[i]
                        === Tile::Minable(Minable::Stone) && spec_is_ore(self.tiles@[i])),
            decreases VEIN_COUNT - vein_no,
        {
            let ghost t_iter = self.tiles@;
            let ghost s_iter = rng.state;
            let kind_idx = rng.range_usize(0, 1);
            let ore = if kind_idx == 0 {
                Tile::Minable(Minable::Copper)
            } else {
                Tile::Minable(Minable::Iron)
            };
            proof {
                assert(self.width * self.height >= 1) by (nonlinear_arith)
                    requires self.width >= 1 && self.height >= 1;
            }
            let pos = rng.range_usize(0, self.width * self.height - 1);
            let vein = self.gen_ore_vein(pos, rng);
            let ghost cells = spec_vein_cells(t_iter, w, h, pos as int, rng_step(rng_step(s_iter))).0;
            if let Some(v) = vein {
                proof {
                    assert(v@.skip(0) =~= v@);
                }
                let mut j: usize = 0;
                while j < v.len()
                    invariant
                        self.wf(),
                        w == self.width as int,
                        h == self.height as int,
                        self.width == old(self).width,
                        self.height == old(self).height,
                        self.depth == old(self).depth,
                        self.player_spawns@ == old(self).player_spawns@,
                        t0 == old(self).tiles@,
                        self.tiles@.len() == t0.len(),
                        t_iter.len() == t0.len(),
                        j <= v@.len(),
                        spec_is_ore(ore),
                        forall|k: int| 0 <= k < v@.len() ==> v@[k] < self.tiles@.len(),
                        convert_vein(self.tiles@, v@.skip(j as int), ore) == convert_vein(
                            t_iter,
                            v@,
                            ore,
                        ),
                        forall|i: int|
                            0 <= i < t0.len() ==> #[trigger] self.tiles@[i] == t0[i] || (t0[i]
                                === Tile::Minable(Minable::Stone) && spec_is_ore(self.tiles@[i])),
                    decreases v@.len() - j,
                {
                    let ghost tj = self.tiles@;
                    let p = v[j];
                    let is_stone = match self.tiles[p] {
                        Tile::Minable(Minable::Stone) => true,
                        _ => false,
                    };
                    if is_stone {
                        self.tiles[p] = ore;
                    }
                    proof {
                        assert(v@.skip(j as int).drop_first() =~= v@.skip(j as int + 1));
                        assert(v@.skip(j as int)[0] == v@[j as int]);
                        assert(convert_vein(tj, v@.skip(j as int), ore) == convert_vein(
                            self.tiles@,
                            v@.skip(j as int + 1),
                            ore,
                        ));
                    }
                    j = j + 1;
                }
                proof {
                    assert(v@.skip(v@.len() as int) =~= Seq::<usize>::empty());
                    assert(self.tiles@ == convert_vein(t_iter, v@, ore));
                }
            } else {
                proof {
                    assert(cells === Seq::<usize>::empty());
                    assert(convert_vein(self.tiles@, cells, ore) == self.tiles@);
                }
            }
            proof {
                let p = spec_vein_pass(t_iter, w, h, s_iter);
                assert((self.tiles@, rng.state) == p);
                assert(spec_seed_veins(t_iter, w, h, s_iter, (VEIN_COUNT - vein_no) as nat)
                    == spec_seed_veins(p.0, w, h, p.1, (VEIN_COUNT - vein_no - 1) as nat));
            }
            vein_no = vein_no + 1;
        }
    }
}

/// Determinism of vein seeding: the contents and final generator state after
/// the pass are a function of the starting contents, the dimensions and the
/// seed state alone, so two runs from the same grid and seed agree exactly.
pub proof fn lemma_seed_veins_deterministic(
    t0: Seq<Tile>,
    w: int,
    h: int,
    s0: u64,
    ra: (Seq<Tile>, u64),
    rb: (Seq<Tile>, u64),
)
    requires
        ra == spec_seed_veins(t0, w, h, s0, VEIN_COUNT as nat),
        rb == spec_seed_veins(t0, w, h, s0, VEIN_COUNT as nat),
    ensures
        ra == rb,
{
}

/// A row-major index built from in-bounds coordinates is itself in range.
pub proof fn lemma_row_major_index_in_range(w: int, h: int, x: int, y: int)
    requires
        1 <= w,
        1 <= h,
        0 <= x < w,
        0 <= y < h,
    ensures
        0 <= x + y * w,
        x + y * w < w * h,
{
    assert(y * w <= (h - 1) * w && x + (h - 1) * w < w * h) by (nonlinear_arith)
        requires 1 <= w && 1 <= h && 0 <= x < w && 0 <= y < h;
}

/// Division and remainder by the width recover in-bounds coordinates.
pub proof fn lemma_row_major_index_inverse(w: int, h: int, pos: int)
    requires
        1 <= w,
        1 <= h,
        0 <= pos < w * h,
    ensures
        0 <= pos % w < w,
        0 <= pos / w < h,
        (pos % w) + (pos / w) * w == pos,
{
    assert(0 <= pos % w < w && 0 <= pos / w && (pos % w) + (pos / w) * w == pos) by (
        nonlinear_arith)
        requires 1 <= w && 0 <= pos;
    assert(pos / w < h) by (nonlinear_arith)
        requires 1 <= w && 1 <= h && 0 <= pos < w * h;
}

} // verus!
