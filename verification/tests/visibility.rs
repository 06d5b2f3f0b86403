use roguecore::fov::VisibilityEngine;
use roguecore::grid::TileGrid;
use roguecore::tile::Tile;

// A 20x9 map whose inner area is open floor, with walls on the border.
fn open_hall() -> TileGrid {
    let mut g = TileGrid::filled_with_walls(20, 9);
    for x in 1..19 {
        for y in 1..8 {
            g.set(x, y, Tile::empty());
        }
    }
    g
}

#[test]
fn nothing_is_visible_before_recompute() {
    let g = open_hall();
    let f = VisibilityEngine::rebuild_from(&g);
    assert!(!f.is_visible(2, 2));
}

#[test]
fn viewer_sees_nearby_open_tiles() {
    let mut g = open_hall();
    let mut f = VisibilityEngine::rebuild_from(&g);
    f.recompute(&mut g, 5, 4, 6, true);
    assert!(f.is_visible(5, 4));
    assert!(f.is_visible(6, 4));
    assert!(f.is_visible(5, 2));
    assert!(f.is_visible(8, 4));
}

// Visibility bound: no tile beyond the Euclidean radius is visible.
#[test]
fn visibility_respects_radius() {
    let mut g = open_hall();
    let mut f = VisibilityEngine::rebuild_from(&g);
    let (vx, vy, r) = (5, 4, 4);
    f.recompute(&mut g, vx, vy, r, true);
    for x in 0..20 {
        for y in 0..9 {
            let d2 = (x - vx) * (x - vx) + (y - vy) * (y - vy);
            if d2 > r * r {
                assert!(!f.is_visible(x, y), "({}, {}) beyond the radius is lit", x, y);
            }
        }
    }
}

// A sight-blocking tile hides what lies behind it.
#[test]
fn wall_blocks_line_of_sight() {
    let mut g = open_hall();
    g.set(7, 4, Tile::wall());
    let mut f = VisibilityEngine::rebuild_from(&g);
    f.recompute(&mut g, 3, 4, 10, true);
    assert!(f.is_visible(6, 4));
    assert!(f.is_visible(7, 4)); // the wall itself is lit (light_walls on)
    assert!(!f.is_visible(8, 4)); // what lies behind it is not
    assert!(!f.is_visible(10, 4));
}

#[test]
fn walls_stay_dark_without_wall_lighting() {
    let mut g = open_hall();
    let mut f = VisibilityEngine::rebuild_from(&g);
    f.recompute(&mut g, 5, 4, 6, false);
    assert!(f.is_visible(6, 4));
    assert!(!f.is_visible(5, 8)); // border wall within radius, not lit
}

// Recomputing marks exactly the visible tiles as explored.
#[test]
fn recompute_marks_visible_tiles_explored() {
    let mut g = open_hall();
    let mut f = VisibilityEngine::rebuild_from(&g);
    f.recompute(&mut g, 5, 4, 5, true);
    for x in 0..20 {
        for y in 0..9 {
            if f.is_visible(x, y) {
                assert!(g.get(x, y).explored);
            }
        }
    }
    assert!(!g.get(18, 7).explored); // far corner out of radius stays unexplored
}

// Exploration monotonicity: moving the viewer never unexplores a tile.
#[test]
fn exploration_is_monotonic() {
    let mut g = open_hall();
    let mut f = VisibilityEngine::rebuild_from(&g);
    f.recompute(&mut g, 3, 4, 5, true);
    let explored_before: Vec<(i32, i32)> = {
        let mut v = vec![];
        for x in 0..20 {
            for y in 0..9 {
                if g.get(x, y).explored {
                    v.push((x, y));
                }
            }
        }
        v
    };
    assert!(!explored_before.is_empty());
    f.recompute(&mut g, 16, 4, 5, true);
    for (x, y) in explored_before {
        assert!(g.get(x, y).explored, "({}, {}) lost its explored flag", x, y);
    }
}

#[test]
fn set_updates_one_cell_and_discards_the_cache() {
    let mut g = open_hall();
    let mut f = VisibilityEngine::rebuild_from(&g);
    f.recompute(&mut g, 5, 4, 6, true);
    assert!(f.is_visible(6, 4));
    f.set(6, 4, false, false);
    assert!(!f.is_visible(6, 4)); // cache dropped: nothing visible until recomputed
}
