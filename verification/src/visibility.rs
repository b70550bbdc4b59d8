//! The visibility tracker: a per-turn field-of-view computation over the
//! grid and a persistent, monotonically growing explored set.
//!
//! A cell is visible when it lies within the view radius and, when walls are
//! lit, no opaque cell stands strictly between it and the viewer on the
//! exact line segment joining them.  This criterion is symmetric — if A sees
//! B then B sees A — and cuts off monotonically with the radius; both facts
//! are proved below.

use vstd::prelude::*;

verus! {

use crate::generator::ConfigError;
use crate::grid::{Grid, spec_blocks_sight};

/// The squared Euclidean distance of two cells.
pub open spec fn sq_dist(ax: int, ay: int, bx: int, by: int) -> int {
    (ax - bx) * (ax - bx) + (ay - by) * (ay - by)
}

/// Whether `(cx, cy)` lies strictly between `(ax, ay)` and `(bx, by)` on the
/// exact segment joining them: collinear with both, and strictly on the far
/// side of each endpoint.
pub open spec fn strictly_between(ax: int, ay: int, cx: int, cy: int, bx: int, by: int) -> bool {
    &&& (cx - ax) * (by - ay) == (cy - ay) * (bx - ax)
    &&& (cx - ax) * (bx - ax) + (cy - ay) * (by - ay) > 0
    &&& (cx - bx) * (ax - bx) + (cy - by) * (ay - by) > 0
}

/// Whether the viewer at `(ax, ay)` sees the cell `(bx, by)`: in bounds,
/// within the radius, and — when walls are lit, so opaque cells block
/// propagation beyond themselves — no opaque cell strictly between.  With
/// `light_walls` false, light passes through walls and only the radius
/// limits visibility.
pub open spec fn spec_visible(
    g: Grid,
    ax: int,
    ay: int,
    bx: int,
    by: int,
    radius: int,
    light_walls: bool,
) -> bool {
    &&& g.spec_in_bounds(bx, by)
    &&& sq_dist(ax, ay, bx, by) <= radius * radius
    &&& (light_walls ==> forall|cx: int, cy: int|
        g.spec_in_bounds(cx, cy) && strictly_between(ax, ay, cx, cy, bx, by)
            ==> !spec_blocks_sight(#[trigger] g.cell(cx, cy)))
}

/// A product of two values bounded by `m` in magnitude is bounded by `m * m`.
proof fn lemma_mul_bound(a: int, b: int, m: int)
    requires
        0 <= m,
        -m <= a <= m,
        -m <= b <= m,
    ensures
        -(m * m) <= a * b <= m * m,
{
    assert(-(m * m) <= a * b <= m * m) by (nonlinear_arith)
        requires 0 <= m && -m <= a <= m && -m <= b <= m;
}

/// Whether `(cx, cy)` stands strictly between the other two coordinates.
fn between_exec(ax: i32, ay: i32, cx: i32, cy: i32, bx: i32, by: i32) -> (r: bool)
    requires
        0 <= ax < 0x4000_0000,
        0 <= ay < 0x4000_0000,
        0 <= cx < 0x4000_0000,
        0 <= cy < 0x4000_0000,
        0 <= bx < 0x4000_0000,
        0 <= by < 0x4000_0000,
    ensures
        r == strictly_between(ax as int, ay as int, cx as int, cy as int, bx as int, by as int),
{
    let ca_x: i64 = cx as i64 - ax as i64;
    let ca_y: i64 = cy as i64 - ay as i64;
    let ba_x: i64 = bx as i64 - ax as i64;
    let ba_y: i64 = by as i64 - ay as i64;
    let cb_x: i64 = cx as i64 - bx as i64;
    let cb_y: i64 = cy as i64 - by as i64;
    let ab_x: i64 = ax as i64 - bx as i64;
    let ab_y: i64 = ay as i64 - by as i64;
    proof {
        lemma_mul_bound(ca_x as int, ba_y as int, 0x4000_0000);
        lemma_mul_bound(ca_y as int, ba_x as int, 0x4000_0000);
        lemma_mul_bound(ca_x as int, ba_x as int, 0x4000_0000);
        lemma_mul_bound(ca_y as int, ba_y as int, 0x4000_0000);
        lemma_mul_bound(cb_x as int, ab_x as int, 0x4000_0000);
        lemma_mul_bound(cb_y as int, ab_y as int, 0x4000_0000);
    }
    ca_x * ba_y == ca_y * ba_x && ca_x * ba_x + ca_y * ba_y > 0 && cb_x * ab_x + cb_y * ab_y > 0
}

/// Whether no opaque cell of the grid stands strictly between the two
/// coordinates.
fn segment_clear(g: &Grid, ax: i32, ay: i32, bx: i32, by: i32) -> (r: bool)
    requires
        g.wf(),
        g.spec_in_bounds(ax as int, ay as int),
        g.spec_in_bounds(bx as int, by as int),
    ensures
        r == (forall|cx: int, cy: int|
            g.spec_in_bounds(cx, cy) && strictly_between(
                ax as int,
                ay as int,
                cx,
                cy,
                bx as int,
                by as int,
            ) ==> !spec_blocks_sight(#[trigger] g.cell(cx, cy))),
{
    let mut clear = true;
    let mut cy: i32 = 0;
    while (cy as usize) < g.height
        invariant
            g.wf(),
            g.spec_in_bounds(ax as int, ay as int),
            g.spec_in_bounds(bx as int, by as int),
            0 <= cy <= g.height,
            clear == (forall|ux: int, uy: int|
                g.spec_in_bounds(ux, uy) && uy < cy && strictly_between(
                    ax as int,
                    ay as int,
                    ux,
                    uy,
                    bx as int,
                    by as int,
                ) ==> !spec_blocks_sight(#[trigger] g.cell(ux, uy))),
        decreases g.height - cy,
    {
        let mut cx: i32 = 0;
        while (cx as usize) < g.width
            invariant
                g.wf(),
                g.spec_in_bounds(ax as int, ay as int),
                g.spec_in_bounds(bx as int, by as int),
                0 <= cy < g.height,
                0 <= cx <= g.width,
                clear == (forall|ux: int, uy: int|
                    g.spec_in_bounds(ux, uy) && (uy < cy || (uy == cy && ux < cx))
                        && strictly_between(
                        ax as int,
                        ay as int,
                        ux,
                        uy,
                        bx as int,
                        by as int,
                    ) ==> !spec_blocks_sight(#[trigger] g.cell(ux, uy))),
            decreases g.width - cx,
        {
            let idx = g.xy_idx(cx, cy);
            let opaque = g.tiles[idx].blocks_sight();
            let betw = between_exec(ax, ay, cx, cy, bx, by);
            proof {
                assert(g.cell(cx as int, cy as int) == g.tiles@[idx as int]);
            }
            if opaque && betw {
                clear = false;
            }
            proof {
                assert(clear == (forall|ux: int, uy: int|
                    g.spec_in_bounds(ux, uy) && (uy < cy || (uy == cy && ux < cx + 1))
                        && strictly_between(
                        ax as int,
                        ay as int,
                        ux,
                        uy,
                        bx as int,
                        by as int,
                    ) ==> !spec_blocks_sight(#[trigger] g.cell(ux, uy))));
            }
            cx = cx + 1;
        }
        cy = cy + 1;
    }
    clear
}

/// Whether the viewer at `(ax, ay)` sees the in-bounds cell `(bx, by)`.
pub fn is_cell_visible(
    g: &Grid,
    ax: i32,
    ay: i32,
    bx: i32,
    by: i32,
    radius: i32,
    light_walls: bool,
) -> (r: bool)
    requires
        g.wf(),
        g.spec_in_bounds(ax as int, ay as int),
        g.spec_in_bounds(bx as int, by as int),
        radius >= 1,
    ensures
        r == spec_visible(
            *g,
            ax as int,
            ay as int,
            bx as int,
            by as int,
            radius as int,
            light_walls,
        ),
{
    let dx: i64 = ax as i64 - bx as i64;
    let dy: i64 = ay as i64 - by as i64;
    proof {
        lemma_mul_bound(dx as int, dx as int, 0x4000_0000);
        lemma_mul_bound(dy as int, dy as int, 0x4000_0000);
        lemma_mul_bound(radius as int, radius as int, 0x8000_0000);
    }
    let dist2: i64 = dx * dx + dy * dy;
    if dist2 > (radius as i64) * (radius as i64) {
        return false;
    }
    if !light_walls {
        return true;
    }
    segment_clear(g, ax, ay, bx, by)
}

/// Check a view radius before any tracking starts: a radius must be
/// positive.
pub fn check_view_radius(radius: i32) -> (r: Result<(), ConfigError>)
    ensures
        r is Ok <==> radius >= 1,
        r is Err ==> r === Err(ConfigError::NonPositiveRadius),
{
    if radius >= 1 {
        Ok(())
    } else {
        Err(ConfigError::NonPositiveRadius)
    }
}

/// The per-session visibility state: one transient `visible` flag and one
/// persistent, never-cleared `explored` flag per cell.
pub struct VisibilitySnapshot {
    pub width: usize,
    pub height: usize,
    pub visible: Vec<bool>,
    pub explored: Vec<bool>,
}

impl VisibilitySnapshot {
    /// Well-formedness: the flag arrays cover the grid exactly.
    pub open spec fn wf(self) -> bool {
        &&& 1 <= self.width <= 0x4000_0000
        &&& 1 <= self.height <= 0x4000_0000
        &&& self.width * self.height <= usize::MAX
        &&& self.visible@.len() == self.width * self.height
        &&& self.explored@.len() == self.width * self.height
    }

    /// A fresh snapshot: nothing visible, nothing explored.
    pub fn new(width: usize, height: usize) -> (r: VisibilitySnapshot)
        requires
            1 <= width <= 0x4000_0000,
            1 <= height <= 0x4000_0000,
            width * height <= usize::MAX,
        ensures
            r.wf(),
            r.width == width,
            r.height == height,
            forall|i: int| 0 <= i < r.visible@.len() ==> !(#[trigger] r.visible@[i]),
            forall|i: int| 0 <= i < r.explored@.len() ==> !(#[trigger] r.explored@[i]),
    {
        let count: usize = width * height;
        let mut visible: Vec<bool> = Vec::new();
        let mut explored: Vec<bool> = Vec::new();
        let mut i: usize = 0;
        while i < count
            invariant
                i <= count,
                visible@.len() == i,
                explored@.len() == i,
                forall|j: int| 0 <= j < i ==> !(#[trigger] visible@[j]),
                forall|j: int| 0 <= j < i ==> !(#[trigger] explored@[j]),
            decreases count - i,
        {
            visible.push(false);
            explored.push(false);
            i = i + 1;
        }
        VisibilitySnapshot { width, height, visible, explored }
    }

    /// Recompute the field of view, but only when the viewer has moved; a
    /// first call is forced by a sentinel previous position such as
    /// `(-1, -1)`.  When the viewer is stationary the snapshot is left
    /// untouched.  Otherwise every cell's `visible` flag becomes its
    /// membership in the field of view from `viewer`, and `explored` grows
    /// by the newly visible cells — it never shrinks.
    pub fn recompute_if_moved(
        &mut self,
        viewer: (i32, i32),
        previous: (i32, i32),
        radius: i32,
        light_walls: bool,
        grid: &Grid,
    )
        requires
            old(self).wf(),
            grid.wf(),
            old(self).width == grid.width,
            old(self).height == grid.height,
            grid.spec_in_bounds(viewer.0 as int, viewer.1 as int),
            radius >= 1,
        ensures
            final(self).wf(),
            final(self).width == old(self).width,
            final(self).height == old(self).height,
            viewer == previous ==> *final(self) == *old(self),
            viewer != previous ==> forall|i: int|
                0 <= i < old(self).visible@.len() ==> #[trigger] final(self).visible@[i]
                    == spec_visible(
                    *grid,
                    viewer.0 as int,
                    viewer.1 as int,
                    i % grid.width as int,
                    i / grid.width as int,
                    radius as int,
                    light_walls,
                ),
            viewer != previous ==> forall|i: int|
                0 <= i < old(self).explored@.len() ==> #[trigger] final(self).explored@[i] == (old(
                    self,
                ).explored@[i] || final(self).visible@[i]),
            forall|i: int|
                0 <= i < old(self).explored@.len() && old(self).explored@[i]
                    ==> #[trigger] final(self).explored@[i],
    {
        if viewer.0 == previous.0 && viewer.1 == previous.1 {
            return ;
        }
        let ghost w = grid.width as int;
        let ghost h = grid.height as int;
        let count: usize = self.visible.len();
        let mut i: usize = 0;
        while i < count
            invariant
                self.wf(),
                grid.wf(),
                self.width == old(self).width,
                self.height == old(self).height,
                self.width == grid.width,
                self.height == grid.height,
                w == grid.width as int,
                h == grid.height as int,
                count == self.visible@.len(),
                grid.spec_in_bounds(viewer.0 as int, viewer.1 as int),
                radius >= 1,
                i <= count,
                self.explored@.len() == old(self).explored@.len(),
                forall|j: int|
                    0 <= j < i ==> #[trigger] self.visible@[j] == spec_visible(
                        *grid,
                        viewer.0 as int,
                        viewer.1 as int,
                        j % w,
                        j / w,
                        radius as int,
                        light_walls,
                    ),
                forall|j: int| i <= j < count ==> #[trigger] self.visible@[j] == old(self).visible@[j],
                forall|j: int|
                    0 <= j < i ==> #[trigger] self.explored@[j] == (old(self).explored@[j]
                        || self.visible@[j]),
                forall|j: int| i <= j < count ==> #[trigger] self.explored@[j] == old(self).explored@[j],
            decreases count - i,
        {
            let coords = grid.idx_xy(i);
            let vis = is_cell_visible(grid, viewer.0, viewer.1, coords.1, coords.0, radius, light_walls);
            self.visible[i] = vis;
            if vis {
                self.explored[i] = true;
            }
            i = i + 1;
        }
    }

    /// The derived attributes of one cell, as rendering consumes them: the
    /// grid's movement and sight flags joined with this snapshot's history.
    pub fn cell_state(&self, grid: &Grid, x: i32, y: i32) -> (r: crate::tile::Tile)
        requires
            self.wf(),
            grid.wf(),
            self.width == grid.width,
            self.height == grid.height,
            grid.spec_in_bounds(x as int, y as int),
        ensures
            r.blocked == crate::grid::spec_blocked(grid.cell(x as int, y as int)),
            r.block_sight == spec_blocks_sight(grid.cell(x as int, y as int)),
            r.explored == self.explored@[grid.spec_idx(x as int, y as int)],
    {
        let idx = grid.xy_idx(x, y);
        let t = grid.tiles[idx];
        crate::tile::Tile {
            blocked: t.blocked(),
            explored: self.explored[idx],
            block_sight: t.blocks_sight(),
        }
    }
}

/// Symmetry of the visibility criterion: under the same radius and wall
/// lighting, the viewer sees a cell exactly when a viewer on that cell
/// would see the viewer's cell.
pub proof fn lemma_visibility_symmetric(
    g: Grid,
    ax: int,
    ay: int,
    bx: int,
    by: int,
    radius: int,
    light_walls: bool,
)
    requires
        g.spec_in_bounds(ax, ay),
        g.spec_in_bounds(bx, by),
    ensures
        spec_visible(g, ax, ay, bx, by, radius, light_walls) == spec_visible(
            g,
            bx,
            by,
            ax,
            ay,
            radius,
            light_walls,
        ),
{
    assert(sq_dist(ax, ay, bx, by) == sq_dist(bx, by, ax, ay)) by (nonlinear_arith);
    assert forall|cx: int, cy: int|
        strictly_between(ax, ay, cx, cy, bx, by) == strictly_between(
            bx,
            by,
            cx,
            cy,
            ax,
            ay,
        ) by {
        assert(((cx - ax) * (by - ay) == (cy - ay) * (bx - ax)) == ((cx - bx) * (ay - by) == (cy
            - by) * (ax - bx))) by (nonlinear_arith);
    }
}

/// The range cutoff is monotonic: whatever a viewer sees within some radius
/// stays seen within any larger radius.
pub proof fn lemma_visibility_radius_monotonic(
    g: Grid,
    ax: int,
    ay: int,
    bx: int,
    by: int,
    r1: int,
    r2: int,
    light_walls: bool,
)
    requires
        0 <= r1 <= r2,
        spec_visible(g, ax, ay, bx, by, r1, light_walls),
    ensures
        spec_visible(g, ax, ay, bx, by, r2, light_walls),
{
    assert(r1 * r1 <= r2 * r2) by (nonlinear_arith)
        requires 0 <= r1 <= r2;
}

} // verus!
