//! Dungeon generation: carving rooms and L-shaped tunnels into a wall-filled
//! grid, rejecting candidate rooms that would touch or overlap an accepted
//! one, and keeping every carved tile connected to the starting room.

use vstd::prelude::*;

use crate::grid::{
    grid_idx, grid_in_bounds, grid_wf, lemma_grid_idx_bounds, tile_at, walkable_at, TileGrid,
};
use crate::tile::{spec_floor_tile, spec_passage_tile, tile_wf, Tile, Type};
use crate::rect::{center_spec, in_interior, in_padded_interior, lemma_disjoint_padded_interiors, rects_intersect, Rect};
use crate::reach::{
    lemma_block_reach, lemma_h_run_reach, lemma_reach_mono, lemma_reach_trans, lemma_v_run_reach,
    reachable,
};
use crate::object::{Fighter, Object, Objects, AI};
use crate::tile::Color;

verus! {

/// The smaller of two endpoints.
pub open spec fn seg_lo(a: int, b: int) -> int {
    if a <= b {
        a
    } else {
        b
    }
}

/// The larger of two endpoints.
pub open spec fn seg_hi(a: int, b: int) -> int {
    if a <= b {
        b
    } else {
        a
    }
}

/// A point lies on the horizontal tunnel segment between `(x1, y)` and
/// `(x2, y)` (endpoints included).
pub open spec fn on_h_segment(x1: int, x2: int, y: int, px: int, py: int) -> bool {
    py == y && seg_lo(x1, x2) <= px <= seg_hi(x1, x2)
}

/// A point lies on the vertical tunnel segment between `(x, y1)` and
/// `(x, y2)` (endpoints included).
pub open spec fn on_v_segment(y1: int, y2: int, x: int, px: int, py: int) -> bool {
    px == x && seg_lo(y1, y2) <= py <= seg_hi(y1, y2)
}

/// How `create_room` rewrites the grid: `g1` is `g0` with the interior of
/// `room` carved to floor and nothing else changed.
pub open spec fn room_carve_rel(g0: TileGrid, g1: TileGrid, room: Rect) -> bool {
    &&& g1.width == g0.width
    &&& g1.height == g0.height
    &&& forall|xx: int, yy: int|
        grid_in_bounds(g0, xx, yy) ==> #[trigger] tile_at(g1, xx, yy) == (if in_interior(
            room,
            xx,
            yy,
        ) {
            spec_floor_tile()
        } else {
            tile_at(g0, xx, yy)
        })
}

/// How `create_h_tunnel` rewrites the grid: wall tiles on the run become
/// passage, everything else is unchanged, and the whole run is walkable
/// afterwards.
pub open spec fn h_tunnel_rel(g0: TileGrid, g1: TileGrid, x1: int, x2: int, y: int) -> bool {
    &&& g1.width == g0.width
    &&& g1.height == g0.height
    &&& forall|xx: int, yy: int|
        grid_in_bounds(g0, xx, yy) ==> #[trigger] tile_at(g1, xx, yy) == (if on_h_segment(
            x1,
            x2,
            y,
            xx,
            yy,
        ) && tile_at(g0, xx, yy).inner == Type::Wall {
            spec_passage_tile()
        } else {
            tile_at(g0, xx, yy)
        })
    &&& forall|xx: int| seg_lo(x1, x2) <= xx <= seg_hi(x1, x2) ==> walkable_at(g1, xx, y)
}

/// How `create_v_tunnel` rewrites the grid.
pub open spec fn v_tunnel_rel(g0: TileGrid, g1: TileGrid, y1: int, y2: int, x: int) -> bool {
    &&& g1.width == g0.width
    &&& g1.height == g0.height
    &&& forall|xx: int, yy: int|
        grid_in_bounds(g0, xx, yy) ==> #[trigger] tile_at(g1, xx, yy) == (if on_v_segment(
            y1,
            y2,
            x,
            xx,
            yy,
        ) && tile_at(g0, xx, yy).inner == Type::Wall {
            spec_passage_tile()
        } else {
            tile_at(g0, xx, yy)
        })
    &&& forall|yy: int| seg_lo(y1, y2) <= yy <= seg_hi(y1, y2) ==> walkable_at(g1, x, yy)
}

/// Every tile of the interior of `r` is carved floor.
pub open spec fn room_floored(g: TileGrid, r: Rect) -> bool {
    forall|x: int, y: int|
        in_interior(r, x, y) ==> #[trigger] tile_at(g, x, y) == spec_floor_tile()
}

/// A candidate room fits strictly inside the map and is wide and tall
/// enough to have a carved interior that contains its centre.
pub open spec fn candidate_ok(width: int, height: int, r: Rect) -> bool {
    &&& 0 <= r.x1
    &&& r.x1 + 2 <= r.x2
    &&& r.x2 < width
    &&& 0 <= r.y1
    &&& r.y1 + 2 <= r.y2
    &&& r.y2 < height
}

/// No two accepted rooms overlap (closed corner ranges, hence with a
/// one-tile margin between interiors).
pub open spec fn rooms_disjoint(rooms: Seq<Rect>) -> bool {
    forall|i: int, j: int|
        0 <= i < j < rooms.len() ==> !rects_intersect(#[trigger] rooms[i], #[trigger] rooms[j])
}

/// The centre of a room lies strictly inside its carved interior.
pub proof fn lemma_center_in_interior(r: Rect)
    requires
        0 <= r.x1,
        r.x1 + 2 <= r.x2,
        0 <= r.y1,
        r.y1 + 2 <= r.y2,
    ensures
        in_interior(r, center_spec(r).0, center_spec(r).1),
{
}

/// Generation parameters: how many rooms to attempt and the inclusive
/// size bounds of a room.
#[derive(Clone, Copy, Debug, PartialEq, Eq, Structural)]
pub struct GenConfig {
    pub max_rooms: i32,
    pub room_min_size: i32,
    pub room_max_size: i32,
}

/// A usable configuration for a `width` by `height` map: at least one
/// attempted room, sizes ordered, large enough to have an interior with a
/// centre, and small enough that a room of maximal size still fits
/// strictly inside the map.
pub open spec fn config_ok(width: int, height: int, c: GenConfig) -> bool {
    &&& 1 <= c.max_rooms <= 1024
    &&& 3 <= c.room_min_size <= c.room_max_size
    &&& c.room_max_size <= width - 2
    &&& c.room_max_size <= height - 2
}

impl GenConfig {
    /// Validate a configuration for a `width` by `height` map: returns it
    /// only when at least one room is attempted, the size bounds are
    /// ordered and at least 3, and a maximal room still fits strictly
    /// inside the map.  An unusable configuration is rejected here, before
    /// generation ever runs.
    pub fn new(max_rooms: i32, room_min_size: i32, room_max_size: i32, width: i32, height: i32) -> (r: Option<GenConfig>)
        ensures
            ({
                let c = GenConfig { max_rooms, room_min_size, room_max_size };
                match r {
                    Some(rc) => rc == c && config_ok(width as int, height as int, c),
                    None => !config_ok(width as int, height as int, c),
                }
            }),
    {
        let c = GenConfig { max_rooms, room_min_size, room_max_size };
        if 5 <= width && 5 <= height && 1 <= max_rooms && max_rooms <= 1024 && 3 <= room_min_size
            && room_min_size <= room_max_size && room_max_size <= width - 2 && room_max_size
            <= height - 2 {
            Some(c)
        } else {
            None
        }
    }
}

/// No tile of the grid is marked explored.
pub open spec fn grid_unexplored(g: TileGrid) -> bool {
    forall|x: int, y: int|
        grid_in_bounds(g, x, y) ==> !(#[trigger] tile_at(g, x, y)).explored
}

/// Carving a room only opens tiles up: walkability, freshness and the
/// floors of rooms disjoint from the carved one all carry over.
proof fn lemma_room_carve_mono(g0: TileGrid, g1: TileGrid, room: Rect)
    requires
        room_carve_rel(g0, g1, room),
    ensures
        forall|x: int, y: int| walkable_at(g0, x, y) ==> walkable_at(g1, x, y),
        grid_unexplored(g0) ==> grid_unexplored(g1),
        forall|r2: Rect|
            candidate_ok(g0.width as int, g0.height as int, r2) && room_floored(g0, r2)
                && !rects_intersect(room, r2) ==> #[trigger] room_floored(g1, r2),
{
    assert forall|x: int, y: int| walkable_at(g0, x, y) implies walkable_at(g1, x, y) by {
        if in_interior(room, x, y) {
            assert(tile_at(g1, x, y) == spec_floor_tile());
        } else {
            assert(tile_at(g1, x, y) == tile_at(g0, x, y));
        }
    }
    if grid_unexplored(g0) {
        assert forall|x: int, y: int| grid_in_bounds(g1, x, y) implies !(#[trigger] tile_at(
            g1,
            x,
            y,
        )).explored by {
            if in_interior(room, x, y) {
                assert(tile_at(g1, x, y) == spec_floor_tile());
            } else {
                assert(tile_at(g1, x, y) == tile_at(g0, x, y));
            }
        }
    }
    assert forall|r2: Rect|
        candidate_ok(g0.width as int, g0.height as int, r2) && room_floored(g0, r2)
            && !rects_intersect(room, r2) implies #[trigger] room_floored(g1, r2) by {
        assert forall|x: int, y: int| in_interior(r2, x, y) implies #[trigger] tile_at(g1, x, y)
            == spec_floor_tile() by {
            assert(grid_in_bounds(g0, x, y));
            if in_interior(room, x, y) {
                lemma_disjoint_padded_interiors(room, r2, x, y);
            }
            assert(tile_at(g1, x, y) == tile_at(g0, x, y));
        }
    }
}

/// A horizontal tunnel only opens tiles up.
proof fn lemma_h_tunnel_mono(g0: TileGrid, g1: TileGrid, x1: int, x2: int, y: int)
    requires
        h_tunnel_rel(g0, g1, x1, x2, y),
    ensures
        forall|x: int, y2: int| walkable_at(g0, x, y2) ==> walkable_at(g1, x, y2),
        grid_unexplored(g0) ==> grid_unexplored(g1),
        forall|r2: Rect|
            candidate_ok(g0.width as int, g0.height as int, r2) && room_floored(g0, r2)
                ==> #[trigger] room_floored(g1, r2),
{
    assert forall|x: int, y2: int| walkable_at(g0, x, y2) implies walkable_at(g1, x, y2) by {
        if on_h_segment(x1, x2, y, x, y2) && tile_at(g0, x, y2).inner == Type::Wall {
            assert(tile_at(g1, x, y2) == spec_passage_tile());
        } else {
            assert(tile_at(g1, x, y2) == tile_at(g0, x, y2));
        }
    }
    if grid_unexplored(g0) {
        assert forall|x: int, y2: int| grid_in_bounds(g1, x, y2) implies !(#[trigger] tile_at(
            g1,
            x,
            y2,
        )).explored by {
            if on_h_segment(x1, x2, y, x, y2) && tile_at(g0, x, y2).inner == Type::Wall {
                assert(tile_at(g1, x, y2) == spec_passage_tile());
            } else {
                assert(tile_at(g1, x, y2) == tile_at(g0, x, y2));
            }
        }
    }
    assert forall|r2: Rect|
        candidate_ok(g0.width as int, g0.height as int, r2) && room_floored(g0, r2)
            implies #[trigger] room_floored(g1, r2) by {
        assert forall|x: int, y2: int| in_interior(r2, x, y2) implies #[trigger] tile_at(g1, x, y2)
            == spec_floor_tile() by {
            assert(grid_in_bounds(g0, x, y2));
            assert(tile_at(g0, x, y2) == spec_floor_tile());
            assert(tile_at(g1, x, y2) == tile_at(g0, x, y2));
        }
    }
}

/// A vertical tunnel only opens tiles up.
proof fn lemma_v_tunnel_mono(g0: TileGrid, g1: TileGrid, y1: int, y2: int, x: int)
    requires
        v_tunnel_rel(g0, g1, y1, y2, x),
    ensures
        forall|x2: int, yy: int| walkable_at(g0, x2, yy) ==> walkable_at(g1, x2, yy),
        grid_unexplored(g0) ==> grid_unexplored(g1),
        forall|r2: Rect|
            candidate_ok(g0.width as int, g0.height as int, r2) && room_floored(g0, r2)
                ==> #[trigger] room_floored(g1, r2),
{
    assert forall|x2: int, yy: int| walkable_at(g0, x2, yy) implies walkable_at(g1, x2, yy) by {
        if on_v_segment(y1, y2, x, x2, yy) && tile_at(g0, x2, yy).inner == Type::Wall {
            assert(tile_at(g1, x2, yy) == spec_passage_tile());
        } else {
            assert(tile_at(g1, x2, yy) == tile_at(g0, x2, yy));
        }
    }
    if grid_unexplored(g0) {
        assert forall|x2: int, yy: int| grid_in_bounds(g1, x2, yy) implies !(#[trigger] tile_at(
            g1,
            x2,
            yy,
        )).explored by {
            if on_v_segment(y1, y2, x, x2, yy) && tile_at(g0, x2, yy).inner == Type::Wall {
                assert(tile_at(g1, x2, yy) == spec_passage_tile());
            } else {
                assert(tile_at(g1, x2, yy) == tile_at(g0, x2, yy));
            }
        }
    }
    assert forall|r2: Rect|
        candidate_ok(g0.width as int, g0.height as int, r2) && room_floored(g0, r2)
            implies #[trigger] room_floored(g1, r2) by {
        assert forall|x2: int, yy: int| in_interior(r2, x2, yy) implies #[trigger] tile_at(
            g1,
            x2,
            yy,
        ) == spec_floor_tile() by {
            assert(grid_in_bounds(g0, x2, yy));
            assert(tile_at(g0, x2, yy) == spec_floor_tile());
            assert(tile_at(g1, x2, yy) == tile_at(g0, x2, yy));
        }
    }
}

/// Accepting the first room: its carved interior is exactly the walkable
/// set, and everything walkable is reachable from the room's centre.
proof fn lemma_accept_first_room(g0: TileGrid, g1: TileGrid, room: Rect, nc: (int, int))
    requires
        room_carve_rel(g0, g1, room),
        candidate_ok(g0.width as int, g0.height as int, room),
        nc == center_spec(room),
        forall|x: int, y: int| !walkable_at(g0, x, y),
        grid_unexplored(g0),
    ensures
        walkable_at(g1, nc.0, nc.1),
        room_floored(g1, room),
        grid_unexplored(g1),
        forall|x: int, y: int| walkable_at(g1, x, y) ==> reachable(g1, nc, (x, y)),
{
    lemma_center_in_interior(room);
    lemma_room_carve_mono(g0, g1, room);
    assert forall|x: int, y: int| in_interior(room, x, y) implies #[trigger] tile_at(g1, x, y)
        == spec_floor_tile() by {
        assert(grid_in_bounds(g0, x, y));
    }
    assert forall|x: int, y: int|
        room.x1 + 1 <= x <= room.x2 - 1 && room.y1 + 1 <= y <= room.y2 - 1 implies walkable_at(
        g1,
        x,
        y,
    ) by {
        assert(tile_at(g1, x, y) == spec_floor_tile());
    }
    assert(walkable_at(g1, nc.0, nc.1));
    assert forall|x: int, y: int| walkable_at(g1, x, y) implies reachable(g1, nc, (x, y)) by {
        if in_interior(room, x, y) {
            lemma_block_reach(
                g1,
                room.x1 + 1,
                room.y1 + 1,
                room.x2 - 1,
                room.y2 - 1,
                nc,
                (x, y),
            );
        } else {
            assert(tile_at(g1, x, y) == tile_at(g0, x, y));
            assert(walkable_at(g0, x, y));
        }
    }
}

/// Accepting a later room: carve its interior, then join its centre to the
/// previous room's centre with an L-shaped tunnel.  Everything that was
/// walkable stays walkable and reachable from the start, and every newly
/// opened tile (room interior or tunnel) is reachable from the start too.
proof fn lemma_accept_room_connect(
    g0: TileGrid,
    g1: TileGrid,
    g2: TileGrid,
    g3: TileGrid,
    room: Rect,
    s: (int, int),
    prev: (int, int),
    nc: (int, int),
    horiz_first: bool,
)
    requires
        room_carve_rel(g0, g1, room),
        horiz_first ==> h_tunnel_rel(g1, g2, prev.0, nc.0, prev.1) && v_tunnel_rel(
            g2,
            g3,
            prev.1,
            nc.1,
            nc.0,
        ),
        !horiz_first ==> v_tunnel_rel(g1, g2, prev.1, nc.1, prev.0) && h_tunnel_rel(
            g2,
            g3,
            prev.0,
            nc.0,
            nc.1,
        ),
        candidate_ok(g0.width as int, g0.height as int, room),
        nc == center_spec(room),
        walkable_at(g0, prev.0, prev.1),
        forall|x: int, y: int| walkable_at(g0, x, y) ==> reachable(g0, s, (x, y)),
        grid_unexplored(g0),
    ensures
        g3.width == g0.width,
        g3.height == g0.height,
        forall|x: int, y: int| walkable_at(g0, x, y) ==> walkable_at(g3, x, y),
        walkable_at(g3, nc.0, nc.1),
        room_floored(g3, room),
        grid_unexplored(g3),
        forall|x: int, y: int| walkable_at(g3, x, y) ==> reachable(g3, s, (x, y)),
        forall|r2: Rect|
            candidate_ok(g0.width as int, g0.height as int, r2) && room_floored(g0, r2)
                && !rects_intersect(room, r2) ==> #[trigger] room_floored(g3, r2),
{
    lemma_center_in_interior(room);
    lemma_room_carve_mono(g0, g1, room);
    if horiz_first {
        lemma_h_tunnel_mono(g1, g2, prev.0, nc.0, prev.1);
        lemma_v_tunnel_mono(g2, g3, prev.1, nc.1, nc.0);
    } else {
        lemma_v_tunnel_mono(g1, g2, prev.1, nc.1, prev.0);
        lemma_h_tunnel_mono(g2, g3, prev.0, nc.0, nc.1);
    }
    // walkability carries over the whole carve
    assert forall|x: int, y: int| walkable_at(g0, x, y) implies walkable_at(g3, x, y) by {
        assert(walkable_at(g1, x, y));
        assert(walkable_at(g2, x, y));
    }
    // the new room's floor survives the tunnels
    assert forall|x: int, y: int| in_interior(room, x, y) implies #[trigger] tile_at(g1, x, y)
        == spec_floor_tile() by {
        assert(grid_in_bounds(g0, x, y));
    }
    assert(room_floored(g1, room));
    assert(room_floored(g3, room));
    // the interior block is walkable in the final grid
    assert forall|x: int, y: int|
        room.x1 + 1 <= x <= room.x2 - 1 && room.y1 + 1 <= y <= room.y2 - 1 implies walkable_at(
        g3,
        x,
        y,
    ) by {
        assert(in_interior(room, x, y));
        assert(tile_at(g3, x, y) == spec_floor_tile());
    }
    assert(walkable_at(g3, nc.0, nc.1));
    // the start still reaches the previous room's centre
    lemma_reach_mono(g0, g3, s, prev);
    let corner = if horiz_first {
        (nc.0, prev.1)
    } else {
        (prev.0, nc.1)
    };
    if horiz_first {
        // first leg: the row at prev.1 between the two centres
        assert forall|xx: int|
            seg_lo(prev.0, nc.0) <= xx <= seg_hi(prev.0, nc.0) implies walkable_at(
            g3,
            xx,
            prev.1,
        ) by {
            assert(walkable_at(g2, xx, prev.1));
        }
        lemma_h_run_reach(
            g3,
            prev.1,
            seg_lo(prev.0, nc.0),
            seg_hi(prev.0, nc.0),
            prev.0,
            nc.0,
        );
        lemma_reach_trans(g3, s, prev, corner);
        // second leg: the column at nc.0 between the two rows
        lemma_v_run_reach(
            g3,
            nc.0,
            seg_lo(prev.1, nc.1),
            seg_hi(prev.1, nc.1),
            prev.1,
            nc.1,
        );
        lemma_reach_trans(g3, s, corner, nc);
        assert forall|x: int, y: int| walkable_at(g3, x, y) implies reachable(g3, s, (x, y)) by {
            if walkable_at(g0, x, y) {
                lemma_reach_mono(g0, g3, s, (x, y));
            } else if in_interior(room, x, y) {
                lemma_block_reach(
                    g3,
                    room.x1 + 1,
                    room.y1 + 1,
                    room.x2 - 1,
                    room.y2 - 1,
                    nc,
                    (x, y),
                );
                lemma_reach_trans(g3, s, nc, (x, y));
            } else if on_h_segment(prev.0, nc.0, prev.1, x, y) {
                lemma_h_run_reach(
                    g3,
                    prev.1,
                    seg_lo(prev.0, nc.0),
                    seg_hi(prev.0, nc.0),
                    prev.0,
                    x,
                );
                lemma_reach_trans(g3, s, prev, (x, y));
            } else if on_v_segment(prev.1, nc.1, nc.0, x, y) {
                lemma_v_run_reach(
                    g3,
                    nc.0,
                    seg_lo(prev.1, nc.1),
                    seg_hi(prev.1, nc.1),
                    prev.1,
                    y,
                );
                lemma_reach_trans(g3, s, corner, (x, y));
            } else {
                assert(tile_at(g3, x, y) == tile_at(g2, x, y));
                assert(tile_at(g2, x, y) == tile_at(g1, x, y));
                assert(tile_at(g1, x, y) == tile_at(g0, x, y));
                assert(walkable_at(g0, x, y));
            }
        }
    } else {
        // first leg: the column at prev.0 between the two rows
        assert forall|yy: int|
            seg_lo(prev.1, nc.1) <= yy <= seg_hi(prev.1, nc.1) implies walkable_at(
            g3,
            prev.0,
            yy,
        ) by {
            assert(walkable_at(g2, prev.0, yy));
        }
        lemma_v_run_reach(
            g3,
            prev.0,
            seg_lo(prev.1, nc.1),
            seg_hi(prev.1, nc.1),
            prev.1,
            nc.1,
        );
        lemma_reach_trans(g3, s, prev, corner);
        // second leg: the row at nc.1 between the two centres
        lemma_h_run_reach(
            g3,
            nc.1,
            seg_lo(prev.0, nc.0),
            seg_hi(prev.0, nc.0),
            prev.0,
            nc.0,
        );
        lemma_reach_trans(g3, s, corner, nc);
        assert forall|x: int, y: int| walkable_at(g3, x, y) implies reachable(g3, s, (x, y)) by {
            if walkable_at(g0, x, y) {
                lemma_reach_mono(g0, g3, s, (x, y));
            } else if in_interior(room, x, y) {
                lemma_block_reach(
                    g3,
                    room.x1 + 1,
                    room.y1 + 1,
                    room.x2 - 1,
                    room.y2 - 1,
                    nc,
                    (x, y),
                );
                lemma_reach_trans(g3, s, nc, (x, y));
            } else if on_v_segment(prev.1, nc.1, prev.0, x, y) {
                lemma_v_run_reach(
                    g3,
                    prev.0,
                    seg_lo(prev.1, nc.1),
                    seg_hi(prev.1, nc.1),
                    prev.1,
                    y,
                );
                lemma_reach_trans(g3, s, prev, (x, y));
            } else if on_h_segment(prev.0, nc.0, nc.1, x, y) {
                lemma_h_run_reach(
                    g3,
                    nc.1,
                    seg_lo(prev.0, nc.0),
                    seg_hi(prev.0, nc.0),
                    prev.0,
                    x,
                );
                lemma_reach_trans(g3, s, corner, (x, y));
            } else {
                assert(tile_at(g3, x, y) == tile_at(g2, x, y));
                assert(tile_at(g2, x, y) == tile_at(g1, x, y));
                assert(tile_at(g1, x, y) == tile_at(g0, x, y));
                assert(walkable_at(g0, x, y));
            }
        }
    }
}

/// Populate an accepted room: append a uniformly random number of
/// monsters (up to the per-room maximum), each at a uniformly random
/// tile of the room's interior, an orc four times out of five and a
/// troll otherwise.  Existing entities, the player included, are left
/// untouched; every appended monster is alive, blocking, AI-controlled,
/// has fighter statistics and stands inside the room.
pub fn place_objects(room: &Rect, objects: &mut Objects)
    requires
        0 <= room.x1,
        room.x1 + 2 <= room.x2,
        room.x2 <= 0x10000,
        0 <= room.y1,
        room.y1 + 2 <= room.y2,
        room.y2 <= 0x10000,
    ensures
        old(objects).0@.len() <= final(objects).0@.len() <= old(objects).0@.len()
            + crate::constants::MAX_ROOM_MONSTERS,
        forall|i: int|
            0 <= i < old(objects).0@.len() ==> #[trigger] final(objects).0@[i] == old(
                objects,
            ).0@[i],
        forall|i: int|
            old(objects).0@.len() <= i < final(objects).0@.len() ==> {
                let m = #[trigger] final(objects).0@[i];
                &&& in_interior(*room, m.x as int, m.y as int)
                &&& m.blocks
                &&& m.alive
                &&& m.ai is Some
                &&& m.fighter is Some
            },
{
    let ghost objs0 = objects.0@;
    let num_monsters = crate::rng::rand_range(0, crate::constants::MAX_ROOM_MONSTERS + 1);
    let mut k: i32 = 0;
    while k < num_monsters
        invariant
            0 <= room.x1,
            room.x1 + 2 <= room.x2,
            room.x2 <= 0x10000,
            0 <= room.y1,
            room.y1 + 2 <= room.y2,
            room.y2 <= 0x10000,
            0 <= k <= num_monsters <= crate::constants::MAX_ROOM_MONSTERS,
            objects.0@.len() == objs0.len() + k,
            forall|i: int| 0 <= i < objs0.len() ==> #[trigger] objects.0@[i] == objs0[i],
            forall|i: int|
                objs0.len() <= i < objects.0@.len() ==> {
                    let m = #[trigger] objects.0@[i];
                    &&& in_interior(*room, m.x as int, m.y as int)
                    &&& m.blocks
                    &&& m.alive
                    &&& m.ai is Some
                    &&& m.fighter is Some
                },
        decreases num_monsters - k,
    {
        let x = crate::rng::rand_range(room.x1 + 1, room.x2);
        let y = crate::rng::rand_range(room.y1 + 1, room.y2);
        let roll = crate::rng::rand_range(0, 10);
        let monster = if roll < 8 {
            let mut orc = Object::new(x, y, 'o', Color { r: 63, g: 127, b: 63 }, "orc", true);
            orc.set_fighter(Fighter::new(10, 0, 3));
            orc.set_ai(AI);
            orc
        } else {
            let mut troll = Object::new(x, y, 'T', Color { r: 0, g: 127, b: 0 }, "troll", true);
            troll.set_fighter(Fighter::new(16, 1, 4));
            troll.set_ai(AI);
            troll
        };
        objects.push(monster);
        k = k + 1;
    }
}

impl TileGrid {
    /// Generate a dungeon: attempt `config.max_rooms` rooms with uniformly
    /// random sizes and placements, rejecting overlaps, carving the rest
    /// and joining consecutive accepted rooms with L-shaped tunnels whose
    /// bend direction is a fair coin flip.
    ///
    /// Returns the grid, the start position (the centre of the first
    /// accepted room; with a usable configuration the very first candidate
    /// is always accepted, so a start always exists), and the accepted
    /// rooms, so that the caller can populate them.  Whatever the random
    /// draws were: the accepted rooms do not overlap, their interiors are
    /// floor, no tile is explored, and every walkable tile is reachable
    /// from the start position.
    pub fn new(width: i32, height: i32, config: &GenConfig) -> (r: (TileGrid, (i32, i32), Vec<
        Rect>))
        requires
            3 <= width <= 1024,
            3 <= height <= 1024,
            config_ok(width as int, height as int, *config),
        ensures
            grid_wf(r.0),
            r.0.width == width,
            r.0.height == height,
            grid_unexplored(r.0),
            0 < r.2@.len() <= config.max_rooms,
            rooms_disjoint(r.2@),
            forall|k: int|
                0 <= k < r.2@.len() ==> candidate_ok(width as int, height as int, #[trigger] r.2@[k]),
            forall|k: int| 0 <= k < r.2@.len() ==> room_floored(r.0, #[trigger] r.2@[k]),
            (r.1.0 as int, r.1.1 as int) == center_spec(r.2@[0]),
            walkable_at(r.0, r.1.0 as int, r.1.1 as int),
            forall|x: int, y: int|
                walkable_at(r.0, x, y) ==> reachable(r.0, (r.1.0 as int, r.1.1 as int), (x, y)),
    {
        let mut candidates: Vec<Rect> = Vec::new();
        let mut dirs: Vec<bool> = Vec::new();
        let mut i: i32 = 0;
        while i < config.max_rooms
            invariant
                3 <= width <= 1024,
                3 <= height <= 1024,
                config_ok(width as int, height as int, *config),
                0 <= i <= config.max_rooms,
                candidates@.len() == i,
                dirs@.len() == i,
                forall|k: int|
                    0 <= k < candidates@.len() ==> candidate_ok(
                        width as int,
                        height as int,
                        #[trigger] candidates@[k],
                    ),
            decreases config.max_rooms - i,
        {
            let w = crate::rng::rand_range(config.room_min_size, config.room_max_size + 1);
            let h = crate::rng::rand_range(config.room_min_size, config.room_max_size + 1);
            let x = crate::rng::rand_range(0, width - w);
            let y = crate::rng::rand_range(0, height - h);
            candidates.push(Rect::new(x, y, w, h));
            dirs.push(crate::rng::rand_bool());
            i = i + 1;
        }
        let (g, start, rooms) = TileGrid::generate_with(width, height, &candidates, &dirs);
        match start {
            Some(p) => (g, p, rooms),
            None => {
                proof {
                    assert(false);
                }
                (g, (0, 0), rooms)
            },
        }
    }

    /// Lay out a dungeon deterministically from a list of candidate rooms
    /// and a list of tunnel-direction coin flips (one per candidate, `true`
    /// meaning horizontal-then-vertical).
    ///
    /// Starting from a wall-filled grid, each candidate in turn is rejected
    /// if it overlaps an already accepted room (closed corner ranges, so
    /// interiors keep a one-tile margin) and carved otherwise; the first
    /// accepted room's centre becomes the start position, and every later
    /// accepted room is joined to the previously accepted one by an
    /// L-shaped tunnel.  Every carved tile ends up reachable from the start
    /// position by 4-directional moves over walkable tiles.
    pub fn generate_with(width: i32, height: i32, candidates: &Vec<Rect>, dirs: &Vec<bool>) -> (r:
        (TileGrid, Option<(i32, i32)>, Vec<Rect>))
        requires
            3 <= width <= 1024,
            3 <= height <= 1024,
            dirs@.len() == candidates@.len(),
            forall|k: int|
                0 <= k < candidates@.len() ==> candidate_ok(
                    width as int,
                    height as int,
                    #[trigger] candidates@[k],
                ),
        ensures
            grid_wf(r.0),
            r.0.width == width,
            r.0.height == height,
            grid_unexplored(r.0),
            r.2@.len() <= candidates@.len(),
            rooms_disjoint(r.2@),
            forall|k: int|
                0 <= k < r.2@.len() ==> candidate_ok(width as int, height as int, #[trigger] r.2@[k]),
            forall|k: int| 0 <= k < r.2@.len() ==> room_floored(r.0, #[trigger] r.2@[k]),
            candidates@.len() > 0 ==> r.2@.len() > 0 && r.2@[0] == candidates@[0],
            r.1 is Some <==> r.2@.len() > 0,
            r.1 is Some ==> (r.1->Some_0.0 as int, r.1->Some_0.1 as int) == center_spec(r.2@[0]),
            r.1 is Some ==> walkable_at(r.0, r.1->Some_0.0 as int, r.1->Some_0.1 as int),
            forall|x: int, y: int|
                r.1 is Some && walkable_at(r.0, x, y) ==> reachable(
                    r.0,
                    (r.1->Some_0.0 as int, r.1->Some_0.1 as int),
                    (x, y),
                ),
            r.1 is None ==> forall|x: int, y: int| !walkable_at(r.0, x, y),
    {
        let mut g = TileGrid::filled_with_walls(width, height);
        let mut rooms: Vec<Rect> = Vec::new();
        let mut start: Option<(i32, i32)> = None;
        let mut prev_center: (i32, i32) = (0, 0);

        proof {
            assert forall|x: int, y: int| !walkable_at(g, x, y) by {
                if grid_in_bounds(g, x, y) {
                    assert(tile_at(g, x, y) == crate::tile::spec_wall_tile());
                }
            }
        }

        let mut k: usize = 0;
        while k < candidates.len()
            invariant
                3 <= width <= 1024,
                3 <= height <= 1024,
                dirs@.len() == candidates@.len(),
                forall|j: int|
                    0 <= j < candidates@.len() ==> candidate_ok(
                        width as int,
                        height as int,
                        #[trigger] candidates@[j],
                    ),
                k <= candidates@.len(),
                grid_wf(g),
                g.width == width,
                g.height == height,
                grid_unexplored(g),
                rooms@.len() <= k,
                rooms_disjoint(rooms@),
                forall|j: int|
                    0 <= j < rooms@.len() ==> candidate_ok(
                        width as int,
                        height as int,
                        #[trigger] rooms@[j],
                    ),
                forall|j: int| 0 <= j < rooms@.len() ==> room_floored(g, #[trigger] rooms@[j]),
                start is Some <==> rooms@.len() > 0,
                k > 0 && candidates@.len() > 0 ==> rooms@.len() > 0 && rooms@[0] == candidates@[0],
                rooms@.len() > 0 ==> (start->Some_0.0 as int, start->Some_0.1 as int) == center_spec(
                    rooms@[0],
                ),
                rooms@.len() > 0 ==> (prev_center.0 as int, prev_center.1 as int) == center_spec(
                    rooms@[rooms@.len() - 1],
                ),
                rooms@.len() > 0 ==> walkable_at(g, prev_center.0 as int, prev_center.1 as int),
                rooms@.len() > 0 ==> walkable_at(g, start->Some_0.0 as int, start->Some_0.1 as int),
                forall|x: int, y: int|
                    rooms@.len() > 0 && walkable_at(g, x, y) ==> reachable(
                        g,
                        (start->Some_0.0 as int, start->Some_0.1 as int),
                        (x, y),
                    ),
                rooms@.len() == 0 ==> forall|x: int, y: int| !walkable_at(g, x, y),
            decreases candidates@.len() - k,
        {
            let new_room = candidates[k];
            let mut failed = false;
            let mut j: usize = 0;
            while j < rooms.len()
                invariant
                    j <= rooms@.len(),
                    failed == exists|jj: int|
                        0 <= jj < j && rects_intersect(new_room, #[trigger] rooms@[jj]),
                decreases rooms@.len() - j,
            {
                if new_room.intersects_with(&rooms[j]) {
                    failed = true;
                }
                j = j + 1;
            }
            if !failed {
                let ghost gs0 = g;
                g.create_room(&new_room);
                let (new_x, new_y) = new_room.center();
                proof {
                    lemma_center_in_interior(new_room);
                }
                if start.is_none() {
                    proof {
                        lemma_accept_first_room(
                            gs0,
                            g,
                            new_room,
                            (new_x as int, new_y as int),
                        );
                    }
                    start = Some((new_x, new_y));
                } else {
                    let (prev_x, prev_y) = prev_center;
                    let ghost gs1 = g;
                    let ghost spos = (start->Some_0.0 as int, start->Some_0.1 as int);
                    if dirs[k] {
                        g.create_h_tunnel(prev_x, new_x, prev_y);
                        let ghost gs2 = g;
                        g.create_v_tunnel(prev_y, new_y, new_x);
                        proof {
                            lemma_accept_room_connect(
                                gs0,
                                gs1,
                                gs2,
                                g,
                                new_room,
                                spos,
                                (prev_x as int, prev_y as int),
                                (new_x as int, new_y as int),
                                true,
                            );
                        }
                    } else {
                        g.create_v_tunnel(prev_y, new_y, prev_x);
                        let ghost gs2 = g;
                        g.create_h_tunnel(prev_x, new_x, new_y);
                        proof {
                            lemma_accept_room_connect(
                                gs0,
                                gs1,
                                gs2,
                                g,
                                new_room,
                                spos,
                                (prev_x as int, prev_y as int),
                                (new_x as int, new_y as int),
                                false,
                            );
                        }
                    }
                }
                proof {
                    assert forall|jj: int| 0 <= jj < rooms@.len() implies room_floored(
                        g,
                        #[trigger] rooms@[jj],
                    ) by {
                        assert(!rects_intersect(new_room, rooms@[jj]));
                        assert(room_floored(gs0, rooms@[jj]));
                    }
                }
                rooms.push(new_room);
                prev_center = (new_x, new_y);
            }
            k = k + 1;
        }
        (g, start, rooms)
    }

    /// Carve the interior of `room` to floor; every tile outside the
    /// interior is untouched.
    pub(crate) fn create_room(&mut self, room: &Rect)
        requires
            grid_wf(*old(self)),
            0 <= room.x1 < room.x2 < old(self).width,
            0 <= room.y1 < room.y2 < old(self).height,
        ensures
            grid_wf(*final(self)),
            room_carve_rel(*old(self), *final(self), *room),
    {
        let ghost g0 = *old(self);
        let mut x = room.x1 + 1;
        while x < room.x2
            invariant
                grid_wf(*self),
                self.width == g0.width,
                self.height == g0.height,
                0 <= room.x1 < room.x2 < g0.width,
                0 <= room.y1 < room.y2 < g0.height,
                room.x1 + 1 <= x <= room.x2,
                forall|xx: int, yy: int|
                    grid_in_bounds(g0, xx, yy) ==> #[trigger] tile_at(*self, xx, yy) == (if (
                    in_interior(*room, xx, yy) && xx < x) {
                        spec_floor_tile()
                    } else {
                        tile_at(g0, xx, yy)
                    }),
            decreases room.x2 - x,
        {
            let mut y = room.y1 + 1;
            while y < room.y2
                invariant
                    grid_wf(*self),
                    self.width == g0.width,
                    self.height == g0.height,
                    0 <= room.x1 < room.x2 < g0.width,
                    0 <= room.y1 < room.y2 < g0.height,
                    room.x1 + 1 <= x < room.x2,
                    room.y1 + 1 <= y <= room.y2,
                    forall|xx: int, yy: int|
                        grid_in_bounds(g0, xx, yy) ==> #[trigger] tile_at(*self, xx, yy) == (if (
                        in_interior(*room, xx, yy) && (xx < x || (xx == x && yy < y))) {
                            spec_floor_tile()
                        } else {
                            tile_at(g0, xx, yy)
                        }),
                decreases room.y2 - y,
            {
                self.set(x, y, Tile::empty());
                y = y + 1;
            }
            x = x + 1;
        }
    }

    /// Carve the horizontal run of tiles from `(x1, y)` to `(x2, y)`: each
    /// wall tile on the run becomes a passage, every other tile (including
    /// already-carved floor on the run) is untouched.  Afterwards the whole
    /// run is walkable.
    pub(crate) fn create_h_tunnel(&mut self, x1: i32, x2: i32, y: i32)
        requires
            grid_wf(*old(self)),
            0 <= x1 < old(self).width,
            0 <= x2 < old(self).width,
            0 <= y < old(self).height,
        ensures
            grid_wf(*final(self)),
            h_tunnel_rel(*old(self), *final(self), x1 as int, x2 as int, y as int),
    {
        let ghost g0 = *old(self);
        let lo = if x1 < x2 {
            x1
        } else {
            x2
        };
        let hi = if x1 < x2 {
            x2
        } else {
            x1
        };
        let mut x = lo;
        while x <= hi
            invariant
                grid_wf(*self),
                self.width == g0.width,
                self.height == g0.height,
                lo == seg_lo(x1 as int, x2 as int),
                hi == seg_hi(x1 as int, x2 as int),
                0 <= lo <= hi < g0.width,
                0 <= y < g0.height,
                lo <= x <= hi + 1,
                forall|xx: int, yy: int|
                    grid_in_bounds(g0, xx, yy) ==> #[trigger] tile_at(*self, xx, yy) == (if (yy
                        == y && lo <= xx < x && tile_at(g0, xx, yy).inner == Type::Wall) {
                        spec_passage_tile()
                    } else {
                        tile_at(g0, xx, yy)
                    }),
            decreases hi + 1 - x,
        {
            if self.get(x, y).inner == Type::Wall {
                self.set(x, y, Tile::debug());
            }
            x = x + 1;
        }
        proof {
            assert forall|xx: int|
                seg_lo(x1 as int, x2 as int) <= xx <= seg_hi(x1 as int, x2 as int)
                    implies walkable_at(*self, xx, y as int) by {
                lemma_grid_idx_bounds(g0, xx, y as int);
                assert(tile_wf(g0.tiles@[grid_idx(g0, xx, y as int)]));
            }
        }
    }

    /// Carve the vertical run of tiles from `(x, y1)` to `(x, y2)`: each
    /// wall tile on the run becomes a passage, every other tile is
    /// untouched.  Afterwards the whole run is walkable.
    pub(crate) fn create_v_tunnel(&mut self, y1: i32, y2: i32, x: i32)
        requires
            grid_wf(*old(self)),
            0 <= y1 < old(self).height,
            0 <= y2 < old(self).height,
            0 <= x < old(self).width,
        ensures
            grid_wf(*final(self)),
            v_tunnel_rel(*old(self), *final(self), y1 as int, y2 as int, x as int),
    {
        let ghost g0 = *old(self);
        let lo = if y1 < y2 {
            y1
        } else {
            y2
        };
        let hi = if y1 < y2 {
            y2
        } else {
            y1
        };
        let mut y = lo;
        while y <= hi
            invariant
                grid_wf(*self),
                self.width == g0.width,
                self.height == g0.height,
                lo == seg_lo(y1 as int, y2 as int),
                hi == seg_hi(y1 as int, y2 as int),
                0 <= lo <= hi < g0.height,
                0 <= x < g0.width,
                lo <= y <= hi + 1,
                forall|xx: int, yy: int|
                    grid_in_bounds(g0, xx, yy) ==> #[trigger] tile_at(*self, xx, yy) == (if (xx
                        == x && lo <= yy < y && tile_at(g0, xx, yy).inner == Type::Wall) {
                        spec_passage_tile()
                    } else {
                        tile_at(g0, xx, yy)
                    }),
            decreases hi + 1 - y,
        {
            if self.get(x, y).inner == Type::Wall {
                self.set(x, y, Tile::debug());
            }
            y = y + 1;
        }
        proof {
            assert forall|yy: int|
                seg_lo(y1 as int, y2 as int) <= yy <= seg_hi(y1 as int, y2 as int)
                    implies walkable_at(*self, x as int, yy) by {
                lemma_grid_idx_bounds(g0, x as int, yy);
                assert(tile_wf(g0.tiles@[grid_idx(g0, x as int, yy)]));
            }
        }
    }
}

} // verus!
