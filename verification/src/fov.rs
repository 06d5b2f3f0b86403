//! Field-of-view: a per-tile transparency/walkability bitmap derived from
//! the tile grid, and a cached visible-tile set recomputed from a viewer
//! position and radius.
//!
//! A tile is visible when it lies within Euclidean `radius` of the viewer
//! and no sight-blocking tile lies strictly between on the rasterised line
//! of sight; an opaque tile at the end of a clear line is lit only when
//! `light_walls` is on.  Recomputing also marks every visible tile of the
//! grid as explored, and exploration is never unset.

use vstd::prelude::*;

use crate::grid::{grid_in_bounds, grid_wf, tile_at, transparent_at, walkable_at, TileGrid};
use crate::tile::Tile;

verus! {

/// The visibility engine: transparency/walkability bitmaps mirroring the
/// tile grid, and the visible set cached by the last `recompute`.
pub struct VisibilityEngine {
    pub transparent: Vec<bool>,
    pub walkable: Vec<bool>,
    pub visible: Vec<bool>,
    pub width: i32,
    pub height: i32,
    pub viewer: (i32, i32),
    pub radius: i32,
    pub light_walls: bool,
    pub computed: bool,
}

/// Dimension well-formedness: bounded positive dimensions and one bitmap
/// entry per tile.
pub open spec fn fov_dims_wf(f: VisibilityEngine) -> bool {
    &&& 0 < f.width <= 1024
    &&& 0 < f.height <= 1024
    &&& f.transparent@.len() == f.width * f.height
    &&& f.walkable@.len() == f.width * f.height
    &&& f.visible@.len() == f.width * f.height
}

/// Whether `(x, y)` lies on the engine's grid.
pub open spec fn fov_in_bounds(f: VisibilityEngine, x: int, y: int) -> bool {
    0 <= x < f.width && 0 <= y < f.height
}

/// The flat index of `(x, y)`.
pub open spec fn fov_idx(f: VisibilityEngine, x: int, y: int) -> int {
    x + y * f.width
}

/// An in-bounds tile whose bitmap entry says it does not block sight.
pub open spec fn fov_transparent_at(f: VisibilityEngine, x: int, y: int) -> bool {
    fov_in_bounds(f, x, y) && f.transparent@[fov_idx(f, x, y)]
}

/// An in-bounds tile whose bitmap entry says it does not block movement.
pub open spec fn fov_walkable_at(f: VisibilityEngine, x: int, y: int) -> bool {
    fov_in_bounds(f, x, y) && f.walkable@[fov_idx(f, x, y)]
}

/// An in-bounds tile of the cached visible set, with a computed cache.
pub open spec fn fov_visible_at(f: VisibilityEngine, x: int, y: int) -> bool {
    f.computed && fov_in_bounds(f, x, y) && f.visible@[fov_idx(f, x, y)]
}

/// Absolute value.
pub open spec fn abs_int(v: int) -> int {
    if v >= 0 {
        v
    } else {
        -v
    }
}

/// Sign, in `{-1, 0, 1}`.
pub open spec fn sign_int(v: int) -> int {
    if v > 0 {
        1
    } else if v < 0 {
        -1
    } else {
        0
    }
}

/// Squared Euclidean distance between two positions.
pub open spec fn dist_sq(a: (int, int), b: (int, int)) -> int {
    (b.0 - a.0) * (b.0 - a.0) + (b.1 - a.1) * (b.1 - a.1)
}

/// The number of raster steps of the line from `a` to `b`: the larger of
/// the two coordinate distances.
pub open spec fn line_steps(a: (int, int), b: (int, int)) -> int {
    if abs_int(b.0 - a.0) >= abs_int(b.1 - a.1) {
        abs_int(b.0 - a.0)
    } else {
        abs_int(b.1 - a.1)
    }
}

/// The rounded offset along one axis after `i` of `steps` raster steps
/// over a total distance `d`.
pub open spec fn interp(d: int, i: int, steps: int) -> int {
    (d * i * 2 + steps) / (2 * steps)
}

/// The `i`-th point of the rasterised line from `a` to `b`
/// (`line_point(a, b, 0) == a` and `line_point(a, b, line_steps(a, b)) == b`).
pub open spec fn line_point(a: (int, int), b: (int, int), i: int) -> (int, int) {
    (
        a.0 + sign_int(b.0 - a.0) * interp(abs_int(b.0 - a.0), i, line_steps(a, b)),
        a.1 + sign_int(b.1 - a.1) * interp(abs_int(b.1 - a.1), i, line_steps(a, b)),
    )
}

/// Every point strictly between `a` and `b` on the rasterised line of
/// sight is transparent.
pub open spec fn los_clear(f: VisibilityEngine, a: (int, int), b: (int, int)) -> bool {
    forall|i: int|
        1 <= i < line_steps(a, b) ==> fov_transparent_at(
            f,
            #[trigger] line_point(a, b, i).0,
            line_point(a, b, i).1,
        )
}

/// The visibility rule: `p` is visible from `viewer` when it is in
/// bounds, within Euclidean `radius`, the line of sight to it is clear,
/// and it is itself transparent or wall-lighting is on.
pub open spec fn visible_spec(
    f: VisibilityEngine,
    viewer: (int, int),
    radius: int,
    light_walls: bool,
    p: (int, int),
) -> bool {
    &&& fov_in_bounds(f, p.0, p.1)
    &&& dist_sq(viewer, p) <= radius * radius
    &&& los_clear(f, viewer, p)
    &&& (fov_transparent_at(f, p.0, p.1) || light_walls)
}

/// Engine well-formedness: the dimensions are sound, and once a visible
/// set has been computed it is exactly the visibility rule applied to the
/// stored viewer, radius and wall-lighting flag.
pub open spec fn fov_wf(f: VisibilityEngine) -> bool {
    &&& fov_dims_wf(f)
    &&& (f.computed ==> {
        &&& fov_in_bounds(f, f.viewer.0 as int, f.viewer.1 as int)
        &&& 0 <= f.radius <= 1024
        &&& forall|x: int, y: int|
            fov_in_bounds(f, x, y) ==> f.visible@[#[trigger] fov_idx(f, x, y)] == visible_spec(
                f,
                (f.viewer.0 as int, f.viewer.1 as int),
                f.radius as int,
                f.light_walls,
                (x, y),
            )
    })
}

/// Visibility bound: a tile the cached set reports visible lies within
/// Euclidean distance `radius` of the viewer (squared distances compared,
/// which is the same thing for non-negative radius).
pub proof fn lemma_visibility_bound(f: VisibilityEngine, p: (int, int))
    requires
        fov_wf(f),
        f.computed,
        fov_in_bounds(f, p.0, p.1),
        f.visible@[fov_idx(f, p.0, p.1)],
    ensures
        dist_sq((f.viewer.0 as int, f.viewer.1 as int), p) <= f.radius * f.radius,
{
}

/// The flat index of an in-bounds position is a valid bitmap index.
proof fn lemma_fov_idx_bounds(f: VisibilityEngine, x: int, y: int)
    requires
        fov_dims_wf(f),
        fov_in_bounds(f, x, y),
    ensures
        0 <= fov_idx(f, x, y) < f.width * f.height,
{
    assert(0 <= x + y * f.width < f.width * f.height) by (nonlinear_arith)
        requires
            0 <= x < f.width,
            0 <= y < f.height,
    ;
}

/// The position of a flat index: dividing out the addressing formula.
proof fn lemma_fov_idx_decompose(f: VisibilityEngine, x: int, y: int)
    requires
        fov_dims_wf(f),
        fov_in_bounds(f, x, y),
    ensures
        fov_idx(f, x, y) % (f.width as int) == x,
        fov_idx(f, x, y) / (f.width as int) == y,
{
    assert((x + y * f.width) % (f.width as int) == x && (x + y * f.width) / (f.width as int)
        == y) by (nonlinear_arith)
        requires
            0 <= x < f.width,
            0 <= y < f.height,
    ;
}

/// The rounded raster offset stays between 0 and the axis distance.
proof fn lemma_interp_bounds(d: int, i: int, steps: int)
    requires
        0 <= d <= steps,
        0 < steps,
        0 <= i <= steps,
    ensures
        0 <= interp(d, i, steps) <= d,
{
    assert(0 <= (d * i * 2 + steps) / (2 * steps) <= d) by (nonlinear_arith)
        requires
            0 <= d <= steps,
            0 < steps,
            0 <= i <= steps,
    ;
}

/// Visibility only reads the dimensions and the transparency bitmap, so
/// it is unchanged between two engines that agree on those.
proof fn lemma_visible_spec_same(
    f1: VisibilityEngine,
    f2: VisibilityEngine,
    viewer: (int, int),
    radius: int,
    light_walls: bool,
    p: (int, int),
)
    requires
        f1.width == f2.width,
        f1.height == f2.height,
        f1.transparent@ == f2.transparent@,
    ensures
        visible_spec(f1, viewer, radius, light_walls, p) == visible_spec(
            f2,
            viewer,
            radius,
            light_walls,
            p,
        ),
{
    assert forall|x: int, y: int| fov_transparent_at(f1, x, y) == fov_transparent_at(
        f2,
        x,
        y,
    ) by {}
    if los_clear(f1, viewer, p) {
        assert forall|i: int| 1 <= i < line_steps(viewer, p) implies fov_transparent_at(
            f2,
            #[trigger] line_point(viewer, p, i).0,
            line_point(viewer, p, i).1,
        ) by {
            assert(fov_transparent_at(
                f1,
                line_point(viewer, p, i).0,
                line_point(viewer, p, i).1,
            ));
        }
    }
    if los_clear(f2, viewer, p) {
        assert forall|i: int| 1 <= i < line_steps(viewer, p) implies fov_transparent_at(
            f1,
            #[trigger] line_point(viewer, p, i).0,
            line_point(viewer, p, i).1,
        ) by {
            assert(fov_transparent_at(
                f2,
                line_point(viewer, p, i).0,
                line_point(viewer, p, i).1,
            ));
        }
    }
}

impl VisibilityEngine {
    /// The flat index of an in-bounds position.
    fn fidx(&self, x: i32, y: i32) -> (i: usize)
        requires
            fov_dims_wf(*self),
            fov_in_bounds(*self, x as int, y as int),
        ensures
            i == fov_idx(*self, x as int, y as int),
            i < self.transparent@.len(),
            i < self.walkable@.len(),
            i < self.visible@.len(),
    {
        proof {
            lemma_fov_idx_bounds(*self, x as int, y as int);
            assert(0 <= y * self.width <= 1024 * 1024) by (nonlinear_arith)
                requires
                    0 <= y < self.height,
                    self.height <= 1024,
                    0 < self.width <= 1024,
            ;
        }
        (x + y * self.width) as usize
    }

    /// An engine of the given dimensions with everything opaque, solid and
    /// invisible, and no visible set computed yet.
    pub fn new(width: i32, height: i32) -> (f: VisibilityEngine)
        requires
            0 < width <= 1024,
            0 < height <= 1024,
        ensures
            fov_wf(f),
            f.width == width,
            f.height == height,
            !f.computed,
            forall|x: int, y: int| !fov_transparent_at(f, x, y),
            forall|x: int, y: int| !fov_walkable_at(f, x, y),
    {
        proof {
            assert(0 <= width * height <= 1024 * 1024) by (nonlinear_arith)
                requires
                    0 < width <= 1024,
                    0 < height <= 1024,
            ;
        }
        let n: usize = (width as usize) * (height as usize);
        let mut transparent: Vec<bool> = Vec::new();
        let mut walkable: Vec<bool> = Vec::new();
        let mut visible: Vec<bool> = Vec::new();
        let mut i: usize = 0;
        while i < n
            invariant
                i <= n,
                transparent@.len() == i,
                walkable@.len() == i,
                visible@.len() == i,
                forall|j: int| 0 <= j < i ==> !(#[trigger] transparent@[j]),
                forall|j: int| 0 <= j < i ==> !(#[trigger] walkable@[j]),
            decreases n - i,
        {
            transparent.push(false);
            walkable.push(false);
            visible.push(false);
            i = i + 1;
        }
        let f = VisibilityEngine {
            transparent,
            walkable,
            visible,
            width,
            height,
            viewer: (0, 0),
            radius: 0,
            light_walls: false,
            computed: false,
        };
        proof {
            assert forall|x: int, y: int| !fov_transparent_at(f, x, y) by {
                if fov_in_bounds(f, x, y) {
                    lemma_fov_idx_bounds(f, x, y);
                }
            }
            assert forall|x: int, y: int| !fov_walkable_at(f, x, y) by {
                if fov_in_bounds(f, x, y) {
                    lemma_fov_idx_bounds(f, x, y);
                }
            }
        }
        f
    }

    /// Set one cell's transparency and walkability.  Any previously
    /// computed visible set is discarded.
    pub fn set(&mut self, x: i32, y: i32, transparent: bool, walkable: bool)
        requires
            fov_dims_wf(*old(self)),
            fov_in_bounds(*old(self), x as int, y as int),
        ensures
            fov_wf(*final(self)),
            final(self).width == old(self).width,
            final(self).height == old(self).height,
            !final(self).computed,
            final(self).transparent@ == old(self).transparent@.update(
                fov_idx(*old(self), x as int, y as int),
                transparent,
            ),
            final(self).walkable@ == old(self).walkable@.update(
                fov_idx(*old(self), x as int, y as int),
                walkable,
            ),
    {
        let i = self.fidx(x, y);
        self.transparent.set(i, transparent);
        self.walkable.set(i, walkable);
        self.computed = false;
    }

    /// Derive the transparency/walkability bitmaps from a tile grid:
    /// per cell, transparency is the negation of `block_sight` and
    /// walkability the negation of `blocked`.
    pub fn rebuild_from(grid: &TileGrid) -> (f: VisibilityEngine)
        requires
            grid_wf(*grid),
        ensures
            fov_wf(f),
            f.width == grid.width,
            f.height == grid.height,
            !f.computed,
            forall|x: int, y: int|
                fov_in_bounds(f, x, y) ==> #[trigger] fov_transparent_at(f, x, y)
                    == transparent_at(*grid, x, y),
            forall|x: int, y: int|
                fov_in_bounds(f, x, y) ==> #[trigger] fov_walkable_at(f, x, y) == walkable_at(
                    *grid,
                    x,
                    y,
                ),
    {
        proof {
            assert(0 <= grid.width * grid.height <= 1024 * 1024) by (nonlinear_arith)
                requires
                    0 < grid.width <= 1024,
                    0 < grid.height <= 1024,
            ;
        }
        let n: usize = (grid.width as usize) * (grid.height as usize);
        let mut transparent: Vec<bool> = Vec::new();
        let mut walkable: Vec<bool> = Vec::new();
        let mut visible: Vec<bool> = Vec::new();
        let mut i: usize = 0;
        while i < n
            invariant
                grid_wf(*grid),
                n == grid.width * grid.height,
                n <= 0x100000,
                i <= n,
                transparent@.len() == i,
                walkable@.len() == i,
                visible@.len() == i,
                forall|j: int|
                    0 <= j < i ==> #[trigger] transparent@[j] == !grid.tiles@[j].block_sight,
                forall|j: int| 0 <= j < i ==> #[trigger] walkable@[j] == !grid.tiles@[j].blocked,
            decreases n - i,
        {
            let p = grid.index_to_pos(i as i32);
            let t = grid.get(p.0, p.1);
            transparent.push(!t.block_sight);
            walkable.push(!t.blocked);
            visible.push(false);
            i = i + 1;
        }
        let f = VisibilityEngine {
            transparent,
            walkable,
            visible,
            width: grid.width,
            height: grid.height,
            viewer: (0, 0),
            radius: 0,
            light_walls: false,
            computed: false,
        };
        proof {
            assert forall|x: int, y: int| fov_in_bounds(f, x, y) implies #[trigger]
                fov_transparent_at(f, x, y) == transparent_at(*grid, x, y) by {
                lemma_fov_idx_bounds(f, x, y);
                crate::grid::lemma_grid_idx_bounds(*grid, x, y);
            }
            assert forall|x: int, y: int| fov_in_bounds(f, x, y) implies #[trigger]
                fov_walkable_at(f, x, y) == walkable_at(*grid, x, y) by {
                lemma_fov_idx_bounds(f, x, y);
                crate::grid::lemma_grid_idx_bounds(*grid, x, y);
            }
        }
        f
    }

    /// Whether every tile strictly between the viewer and the target on
    /// the rasterised line of sight is transparent.
    fn los_clear_exec(&self, vx: i32, vy: i32, px: i32, py: i32) -> (r: bool)
        requires
            fov_dims_wf(*self),
            fov_in_bounds(*self, vx as int, vy as int),
            fov_in_bounds(*self, px as int, py as int),
        ensures
            r == los_clear(*self, (vx as int, vy as int), (px as int, py as int)),
    {
        let ghost av = (vx as int, vy as int);
        let ghost bv = (px as int, py as int);
        let dx = px - vx;
        let dy = py - vy;
        let adx = if dx < 0 {
            -dx
        } else {
            dx
        };
        let ady = if dy < 0 {
            -dy
        } else {
            dy
        };
        let steps = if adx >= ady {
            adx
        } else {
            ady
        };
        assert(steps == line_steps(av, bv));
        if steps <= 1 {
            return true;
        }
        let mut i: i32 = 1;
        while i < steps
            invariant
                fov_dims_wf(*self),
                fov_in_bounds(*self, vx as int, vy as int),
                fov_in_bounds(*self, px as int, py as int),
                av == (vx as int, vy as int),
                bv == (px as int, py as int),
                dx == px - vx,
                dy == py - vy,
                adx == abs_int(bv.0 - av.0),
                ady == abs_int(bv.1 - av.1),
                steps == line_steps(av, bv),
                2 <= steps <= 1024,
                1 <= i <= steps,
                forall|ii: int|
                    1 <= ii < i ==> fov_transparent_at(
                        *self,
                        #[trigger] line_point(av, bv, ii).0,
                        line_point(av, bv, ii).1,
                    ),
            decreases steps - i,
        {
            proof {
                assert(0 <= adx * i * 2 + steps <= 0x400000 && 0 <= ady * i * 2 + steps
                    <= 0x400000) by (nonlinear_arith)
                    requires
                        0 <= adx <= 1024,
                        0 <= ady <= 1024,
                        0 <= i <= 1024,
                        0 < steps <= 1024,
                ;
            }
            let ox = (adx * i * 2 + steps) / (2 * steps);
            let oy = (ady * i * 2 + steps) / (2 * steps);
            let xi = if dx >= 0 {
                vx + ox
            } else {
                vx - ox
            };
            let yi = if dy >= 0 {
                vy + oy
            } else {
                vy - oy
            };
            proof {
                lemma_interp_bounds(adx as int, i as int, steps as int);
                lemma_interp_bounds(ady as int, i as int, steps as int);
                assert(ox == interp(adx as int, i as int, steps as int));
                assert(oy == interp(ady as int, i as int, steps as int));
                if dx > 0 {
                    assert(sign_int(bv.0 - av.0) == 1);
                } else if dx < 0 {
                    assert(sign_int(bv.0 - av.0) == -1);
                } else {
                    assert(sign_int(bv.0 - av.0) == 0 && ox == 0);
                }
                if dy > 0 {
                    assert(sign_int(bv.1 - av.1) == 1);
                } else if dy < 0 {
                    assert(sign_int(bv.1 - av.1) == -1);
                } else {
                    assert(sign_int(bv.1 - av.1) == 0 && oy == 0);
                }
                assert((xi as int, yi as int) == line_point(av, bv, i as int));
            }
            let idx = self.fidx(xi, yi);
            if !self.transparent[idx] {
                proof {
                    assert(!fov_transparent_at(
                        *self,
                        line_point(av, bv, i as int).0,
                        line_point(av, bv, i as int).1,
                    ));
                }
                return false;
            }
            i = i + 1;
        }
        true
    }

    /// Whether `(px, py)` is visible from `(vx, vy)` under the visibility
    /// rule, computed directly from the transparency bitmap.
    fn visible_from(&self, vx: i32, vy: i32, radius: i32, light_walls: bool, px: i32, py: i32) -> (r:
        bool)
        requires
            fov_dims_wf(*self),
            fov_in_bounds(*self, vx as int, vy as int),
            fov_in_bounds(*self, px as int, py as int),
            0 <= radius <= 1024,
        ensures
            r == visible_spec(
                *self,
                (vx as int, vy as int),
                radius as int,
                light_walls,
                (px as int, py as int),
            ),
    {
        let dx = px - vx;
        let dy = py - vy;
        proof {
            assert(0 <= dx * dx <= 0x100000 && 0 <= dy * dy <= 0x100000 && 0 <= radius * radius
                <= 0x100000) by (nonlinear_arith)
                requires
                    -1024 <= dx <= 1024,
                    -1024 <= dy <= 1024,
                    0 <= radius <= 1024,
            ;
        }
        let d2 = dx * dx + dy * dy;
        if d2 > radius * radius {
            return false;
        }
        if !self.los_clear_exec(vx, vy, px, py) {
            return false;
        }
        let idx = self.fidx(px, py);
        self.transparent[idx] || light_walls
    }

    /// Recompute the visible set for the given viewer position, radius and
    /// wall-lighting flag, and mark every visible tile of `grid` explored.
    /// A tile's `explored` flag is never cleared: once explored, a tile
    /// stays explored after every later recompute.
    pub fn recompute(&mut self, grid: &mut TileGrid, x: i32, y: i32, radius: i32, light_walls: bool)
        requires
            fov_dims_wf(*old(self)),
            grid_wf(*old(grid)),
            old(grid).width == old(self).width,
            old(grid).height == old(self).height,
            fov_in_bounds(*old(self), x as int, y as int),
            0 <= radius <= 1024,
        ensures
            fov_wf(*final(self)),
            final(self).computed,
            final(self).viewer == (x, y),
            final(self).radius == radius,
            final(self).light_walls == light_walls,
            final(self).width == old(self).width,
            final(self).height == old(self).height,
            final(self).transparent@ == old(self).transparent@,
            final(self).walkable@ == old(self).walkable@,
            grid_wf(*final(grid)),
            final(grid).width == old(grid).width,
            final(grid).height == old(grid).height,
            forall|xx: int, yy: int|
                grid_in_bounds(*old(grid), xx, yy) ==> #[trigger] tile_at(*final(grid), xx, yy)
                    == (Tile {
                    explored: tile_at(*old(grid), xx, yy).explored || visible_spec(
                        *final(self),
                        (x as int, y as int),
                        radius as int,
                        light_walls,
                        (xx, yy),
                    ),
                    ..tile_at(*old(grid), xx, yy)
                }),
            forall|xx: int, yy: int|
                grid_in_bounds(*old(grid), xx, yy) && tile_at(*old(grid), xx, yy).explored
                    ==> #[trigger] tile_at(*final(grid), xx, yy).explored,
    {
        let ghost f0 = *self;
        proof {
            assert(0 <= self.width * self.height <= 1024 * 1024) by (nonlinear_arith)
                requires
                    0 < self.width <= 1024,
                    0 < self.height <= 1024,
            ;
        }
        let n: usize = (self.width as usize) * (self.height as usize);
        let mut vis: Vec<bool> = Vec::new();
        let mut i: usize = 0;
        while i < n
            invariant
                fov_dims_wf(*self),
                *self == f0,
                n == self.width * self.height,
                n <= 0x100000,
                i <= n,
                vis@.len() == i,
                fov_in_bounds(*self, x as int, y as int),
                0 <= radius <= 1024,
                forall|j: int|
                    0 <= j < i ==> #[trigger] vis@[j] == visible_spec(
                        f0,
                        (x as int, y as int),
                        radius as int,
                        light_walls,
                        (j % (f0.width as int), j / (f0.width as int)),
                    ),
            decreases n - i,
        {
            let px = (i as i32) % self.width;
            let py = (i as i32) / self.width;
            proof {
                assert(0 <= (i as int) % (f0.width as int) < f0.width && 0 <= (i as int) / (
                f0.width as int) < f0.height) by (nonlinear_arith)
                    requires
                        0 < f0.width,
                        0 < f0.height,
                        0 <= i < f0.width * f0.height,
                ;
            }
            let v = self.visible_from(x, y, radius, light_walls, px, py);
            vis.push(v);
            i = i + 1;
        }
        self.visible = vis;
        self.viewer = (x, y);
        self.radius = radius;
        self.light_walls = light_walls;
        self.computed = true;
        proof {
            assert forall|xx: int, yy: int| fov_in_bounds(*self, xx, yy) implies self.visible@[
            #[trigger] fov_idx(*self, xx, yy)] == visible_spec(
                *self,
                (x as int, y as int),
                radius as int,
                light_walls,
                (xx, yy),
            ) by {
                lemma_fov_idx_bounds(*self, xx, yy);
                lemma_fov_idx_decompose(*self, xx, yy);
                lemma_visible_spec_same(
                    f0,
                    *self,
                    (x as int, y as int),
                    radius as int,
                    light_walls,
                    (xx, yy),
                );
            }
        }
        self.mark_explored(grid);
    }

    /// Mark every tile of the cached visible set as explored in `grid`.
    fn mark_explored(&self, grid: &mut TileGrid)
        requires
            fov_wf(*self),
            self.computed,
            grid_wf(*old(grid)),
            old(grid).width == self.width,
            old(grid).height == self.height,
        ensures
            grid_wf(*final(grid)),
            final(grid).width == old(grid).width,
            final(grid).height == old(grid).height,
            forall|xx: int, yy: int|
                grid_in_bounds(*old(grid), xx, yy) ==> #[trigger] tile_at(*final(grid), xx, yy)
                    == (Tile {
                    explored: tile_at(*old(grid), xx, yy).explored || visible_spec(
                        *self,
                        (self.viewer.0 as int, self.viewer.1 as int),
                        self.radius as int,
                        self.light_walls,
                        (xx, yy),
                    ),
                    ..tile_at(*old(grid), xx, yy)
                }),
            forall|xx: int, yy: int|
                grid_in_bounds(*old(grid), xx, yy) && tile_at(*old(grid), xx, yy).explored
                    ==> #[trigger] tile_at(*final(grid), xx, yy).explored,
    {
        let ghost g0 = *old(grid);
        let ghost vsp = |xx: int, yy: int|
            visible_spec(
                *self,
                (self.viewer.0 as int, self.viewer.1 as int),
                self.radius as int,
                self.light_walls,
                (xx, yy),
            );
        let mut yy: i32 = 0;
        while yy < grid.height
            invariant
                fov_wf(*self),
                self.computed,
                grid_wf(*grid),
                grid.width == g0.width,
                grid.height == g0.height,
                g0.width == self.width,
                g0.height == self.height,
                grid_wf(g0),
                0 <= yy <= grid.height,
                vsp == (|xx: int, yy: int|
                    visible_spec(
                        *self,
                        (self.viewer.0 as int, self.viewer.1 as int),
                        self.radius as int,
                        self.light_walls,
                        (xx, yy),
                    )),
                forall|px: int, py: int|
                    grid_in_bounds(g0, px, py) ==> #[trigger] tile_at(*grid, px, py) == (if py
                        < yy {
                        Tile { explored: tile_at(g0, px, py).explored || vsp(px, py), ..tile_at(
                            g0,
                            px,
                            py,
                        ) }
                    } else {
                        tile_at(g0, px, py)
                    }),
            decreases grid.height - yy,
        {
            let mut xx: i32 = 0;
            while xx < grid.width
                invariant
                    fov_wf(*self),
                    self.computed,
                    grid_wf(*grid),
                    grid.width == g0.width,
                    grid.height == g0.height,
                    g0.width == self.width,
                    g0.height == self.height,
                    grid_wf(g0),
                    0 <= yy < grid.height,
                    0 <= xx <= grid.width,
                    vsp == (|xx: int, yy: int|
                        visible_spec(
                            *self,
                            (self.viewer.0 as int, self.viewer.1 as int),
                            self.radius as int,
                            self.light_walls,
                            (xx, yy),
                        )),
                    forall|px: int, py: int|
                        grid_in_bounds(g0, px, py) ==> #[trigger] tile_at(*grid, px, py) == (if py
                            < yy || (py == yy && px < xx) {
                            Tile { explored: tile_at(g0, px, py).explored || vsp(px, py), ..tile_at(
                                g0,
                                px,
                                py,
                            ) }
                        } else {
                            tile_at(g0, px, py)
                        }),
                decreases grid.width - xx,
            {
                let vi = self.fidx(xx, yy);
                let v = self.visible[vi];
                proof {
                    assert(v == vsp(xx as int, yy as int));
                }
                if v {
                    let mut t = grid.get(xx, yy);
                    t.explored = true;
                    grid.set(xx, yy, t);
                }
                xx = xx + 1;
            }
            yy = yy + 1;
        }
    }

    /// Whether `(x, y)` is in the cached visible set.  Before the first
    /// recompute (or after the bitmap changed) nothing is visible.
    pub fn is_visible(&self, x: i32, y: i32) -> (r: bool)
        requires
            fov_dims_wf(*self),
        ensures
            r == fov_visible_at(*self, x as int, y as int),
    {
        if !self.computed {
            return false;
        }
        if x < 0 || x >= self.width || y < 0 || y >= self.height {
            return false;
        }
        let i = self.fidx(x, y);
        self.visible[i]
    }
}

} // verus!
