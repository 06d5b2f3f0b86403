//! The tile grid: flat row-major storage of tile state for a fixed-size
//! rectangular map, addressed by `index = x + y * width`.

use vstd::prelude::*;

use crate::tile::{is_explorable, spec_wall_tile, tile_wf, Tile, Type};

verus! {

/// Flat row-major storage of the map's tiles.
pub struct TileGrid {
    pub tiles: Vec<Tile>,
    pub width: i32,
    pub height: i32,
}

/// Grid well-formedness: positive bounded dimensions, exactly
/// `width * height` tiles, every tile satisfying the tile invariant.
pub open spec fn grid_wf(g: TileGrid) -> bool {
    &&& 0 < g.width <= 1024
    &&& 0 < g.height <= 1024
    &&& g.tiles@.len() == g.width * g.height
    &&& forall|i: int| 0 <= i < g.tiles@.len() ==> tile_wf(#[trigger] g.tiles@[i])
}

/// Whether `(x, y)` lies on the grid.
pub open spec fn grid_in_bounds(g: TileGrid, x: int, y: int) -> bool {
    0 <= x < g.width && 0 <= y < g.height
}

/// The flat index of `(x, y)`.
pub open spec fn grid_idx(g: TileGrid, x: int, y: int) -> int {
    x + y * g.width
}

/// The tile stored at `(x, y)`.
pub open spec fn tile_at(g: TileGrid, x: int, y: int) -> Tile {
    g.tiles@[grid_idx(g, x, y)]
}

/// An in-bounds tile that does not block movement.
pub open spec fn walkable_at(g: TileGrid, x: int, y: int) -> bool {
    grid_in_bounds(g, x, y) && !tile_at(g, x, y).blocked
}

/// An in-bounds tile that does not block sight.
pub open spec fn transparent_at(g: TileGrid, x: int, y: int) -> bool {
    grid_in_bounds(g, x, y) && !tile_at(g, x, y).block_sight
}

/// An in-bounds tile carved to floor or passage during generation.
pub open spec fn carved_at(g: TileGrid, x: int, y: int) -> bool {
    grid_in_bounds(g, x, y) && tile_at(g, x, y).inner != Type::Wall
}

/// How many tiles of `s` are carved floor or passage.
pub open spec fn count_explorable(s: Seq<Tile>) -> int
    decreases s.len(),
{
    if s.len() == 0 {
        0
    } else {
        count_explorable(s.drop_last()) + (if is_explorable(s.last()) {
            1int
        } else {
            0int
        })
    }
}

/// How many tiles of `s` are carved floor or passage and already explored.
pub open spec fn count_explored(s: Seq<Tile>) -> int
    decreases s.len(),
{
    if s.len() == 0 {
        0
    } else {
        count_explored(s.drop_last()) + (if is_explorable(s.last()) && s.last().explored {
            1int
        } else {
            0int
        })
    }
}

/// One more tile extends the two exploration counts by at most one each.
proof fn lemma_count_step(s: Seq<Tile>, i: int)
    requires
        0 <= i < s.len(),
    ensures
        count_explorable(s.subrange(0, i + 1)) == count_explorable(s.subrange(0, i)) + (if
        is_explorable(s[i]) {
            1int
        } else {
            0int
        }),
        count_explored(s.subrange(0, i + 1)) == count_explored(s.subrange(0, i)) + (if
        is_explorable(s[i]) && s[i].explored {
            1int
        } else {
            0int
        }),
{
    assert(s.subrange(0, i + 1).drop_last() =~= s.subrange(0, i));
    assert(s.subrange(0, i + 1).last() == s[i]);
}

/// The flat index of an in-bounds position is a valid tile index.
pub proof fn lemma_grid_idx_bounds(g: TileGrid, x: int, y: int)
    requires
        grid_wf(g),
        grid_in_bounds(g, x, y),
    ensures
        0 <= grid_idx(g, x, y) < g.tiles@.len(),
{
    assert(0 <= x + y * g.width < g.width * g.height) by (nonlinear_arith)
        requires
            0 <= x < g.width,
            0 <= y < g.height,
    ;
}

/// Distinct in-bounds positions have distinct flat indices.
pub proof fn lemma_grid_idx_injective(g: TileGrid, x1: int, y1: int, x2: int, y2: int)
    requires
        grid_wf(g),
        grid_in_bounds(g, x1, y1),
        grid_in_bounds(g, x2, y2),
        grid_idx(g, x1, y1) == grid_idx(g, x2, y2),
    ensures
        x1 == x2 && y1 == y2,
{
    assert(x1 == x2 && y1 == y2) by (nonlinear_arith)
        requires
            0 <= x1 < g.width,
            0 <= x2 < g.width,
            0 <= y1 < g.height,
            0 <= y2 < g.height,
            x1 + y1 * g.width == x2 + y2 * g.width,
    ;
}

/// On a well-formed grid, a tile is carved exactly when it is walkable, and
/// walkable tiles are transparent.
pub proof fn lemma_carved_is_walkable(g: TileGrid, x: int, y: int)
    requires
        grid_wf(g),
    ensures
        carved_at(g, x, y) == walkable_at(g, x, y),
        walkable_at(g, x, y) ==> transparent_at(g, x, y),
{
    if grid_in_bounds(g, x, y) {
        lemma_grid_idx_bounds(g, x, y);
        assert(tile_wf(g.tiles@[grid_idx(g, x, y)]));
    }
}

impl TileGrid {
    /// A grid of the given dimensions with every tile an unexplored wall.
    pub fn filled_with_walls(width: i32, height: i32) -> (g: TileGrid)
        requires
            0 < width <= 1024,
            0 < height <= 1024,
        ensures
            grid_wf(g),
            g.width == width,
            g.height == height,
            forall|x: int, y: int|
                grid_in_bounds(g, x, y) ==> #[trigger] tile_at(g, x, y) == spec_wall_tile(),
    {
        proof {
            assert(0 <= width * height <= 1024 * 1024) by (nonlinear_arith)
                requires
                    0 < width <= 1024,
                    0 < height <= 1024,
            ;
        }
        let n: usize = (width as usize) * (height as usize);
        let mut tiles: Vec<Tile> = Vec::new();
        let mut i: usize = 0;
        while i < n
            invariant
                i <= n,
                n == width * height,
                tiles@.len() == i,
                forall|j: int| 0 <= j < i ==> #[trigger] tiles@[j] == spec_wall_tile(),
            decreases n - i,
        {
            tiles.push(Tile::wall());
            i = i + 1;
        }
        let g = TileGrid { tiles, width, height };
        proof {
            assert forall|x: int, y: int| grid_in_bounds(g, x, y) implies #[trigger] tile_at(
                g,
                x,
                y,
            ) == spec_wall_tile() by {
                lemma_grid_idx_bounds(g, x, y);
            }
        }
        g
    }

    /// The flat index of an in-bounds position.
    fn pos_index(&self, x: i32, y: i32) -> (i: usize)
        requires
            grid_wf(*self),
            grid_in_bounds(*self, x as int, y as int),
        ensures
            i == grid_idx(*self, x as int, y as int),
            i < self.tiles@.len(),
    {
        proof {
            lemma_grid_idx_bounds(*self, x as int, y as int);
            assert(0 <= y * self.width <= 1024 * 1024) by (nonlinear_arith)
                requires
                    0 <= y < self.height,
                    self.height <= 1024,
                    0 < self.width <= 1024,
            ;
        }
        (x + y * self.width) as usize
    }

    /// Read the tile at `(x, y)`.
    pub fn get(&self, x: i32, y: i32) -> (t: Tile)
        requires
            grid_wf(*self),
            grid_in_bounds(*self, x as int, y as int),
        ensures
            t == tile_at(*self, x as int, y as int),
    {
        let i = self.pos_index(x, y);
        self.tiles[i]
    }

    /// Overwrite the tile at `(x, y)`; every other tile is untouched.
    pub fn set(&mut self, x: i32, y: i32, t: Tile)
        requires
            grid_wf(*old(self)),
            grid_in_bounds(*old(self), x as int, y as int),
            tile_wf(t),
        ensures
            grid_wf(*final(self)),
            final(self).width == old(self).width,
            final(self).height == old(self).height,
            tile_at(*final(self), x as int, y as int) == t,
            forall|xx: int, yy: int|
                grid_in_bounds(*old(self), xx, yy) && !(xx == x && yy == y)
                    ==> #[trigger] tile_at(*final(self), xx, yy) == tile_at(*old(self), xx, yy),
    {
        let i = self.pos_index(x, y);
        self.tiles.set(i, t);
        proof {
            let g0 = *old(self);
            let g1 = *self;
            assert forall|xx: int, yy: int|
                grid_in_bounds(g0, xx, yy) && !(xx == x && yy == y) implies #[trigger] tile_at(
                g1,
                xx,
                yy,
            ) == tile_at(g0, xx, yy) by {
                lemma_grid_idx_bounds(g0, xx, yy);
                if grid_idx(g0, xx, yy) == grid_idx(g0, x as int, y as int) {
                    lemma_grid_idx_injective(g0, xx, yy, x as int, y as int);
                }
            }
        }
    }

    /// Whether the terrain at `(x, y)` blocks movement.
    pub fn is_blocked(&self, x: i32, y: i32) -> (b: bool)
        requires
            grid_wf(*self),
            grid_in_bounds(*self, x as int, y as int),
        ensures
            b == tile_at(*self, x as int, y as int).blocked,
            b == !walkable_at(*self, x as int, y as int),
    {
        let t = self.get(x, y);
        t.blocked
    }

    /// The exploration progress: how many floor/passage tiles have been
    /// explored, out of how many there are.
    pub fn explored_count(&self) -> (r: (i32, i32))
        requires
            grid_wf(*self),
        ensures
            r.0 == count_explored(self.tiles@),
            r.1 == count_explorable(self.tiles@),
            0 <= r.0 <= r.1 <= self.tiles@.len(),
    {
        proof {
            assert(0 <= self.width * self.height <= 0x100000) by (nonlinear_arith)
                requires
                    0 < self.width <= 1024,
                    0 < self.height <= 1024,
            ;
        }
        let mut explored: i32 = 0;
        let mut total: i32 = 0;
        let n = self.tiles.len();
        let mut i: usize = 0;
        while i < n
            invariant
                grid_wf(*self),
                n == self.tiles@.len(),
                n <= 0x100000,
                i <= n,
                explored == count_explored(self.tiles@.subrange(0, i as int)),
                total == count_explorable(self.tiles@.subrange(0, i as int)),
                0 <= explored <= total <= i,
            decreases n - i,
        {
            let t = self.tiles[i];
            proof {
                lemma_count_step(self.tiles@, i as int);
            }
            let explorable = match t.inner {
                Type::Floor => true,
                Type::Passage => true,
                Type::Wall => false,
            };
            if explorable {
                total = total + 1;
                if t.explored {
                    explored = explored + 1;
                }
            }
            i = i + 1;
        }
        proof {
            assert(self.tiles@.subrange(0, n as int) =~= self.tiles@);
        }
        (explored, total)
    }

    /// The inverse of the addressing formula: the position whose flat index
    /// is `i`.
    pub fn index_to_pos(&self, i: i32) -> (p: (i32, i32))
        requires
            grid_wf(*self),
            0 <= i < self.tiles@.len(),
        ensures
            p.0 == i as int % self.width as int,
            p.1 == i as int / self.width as int,
            grid_in_bounds(*self, p.0 as int, p.1 as int),
            grid_idx(*self, p.0 as int, p.1 as int) == i,
    {
        proof {
            assert(i / self.width < self.height && i % self.width + (i / self.width) * self.width
                == i) by (nonlinear_arith)
                requires
                    0 < self.width,
                    0 < self.height,
                    0 <= i < self.width * self.height,
            ;
        }
        (i % self.width, i / self.width)
    }
}

} // verus!
