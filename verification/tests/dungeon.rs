use roguecore::gen::GenConfig;
use roguecore::grid::TileGrid;
use roguecore::rect::Rect;
use roguecore::tile::{Tile, Type};

#[test]
fn rect_new_and_center() {
    let r = Rect::new(5, 5, 10, 6);
    assert_eq!((r.x1, r.y1, r.x2, r.y2), (5, 5, 15, 11));
    assert_eq!(r.center(), (10, 8));
}

#[test]
fn rects_touching_count_as_intersecting() {
    let a = Rect::new(5, 5, 10, 6);
    let b = Rect::new(15, 5, 4, 4);
    assert!(a.intersects_with(&b));
    let c = Rect::new(16, 5, 4, 4);
    assert!(!a.intersects_with(&c));
    assert!(!c.intersects_with(&a));
}

#[test]
fn grid_get_set_and_is_blocked() {
    let mut g = TileGrid::filled_with_walls(8, 6);
    assert!(g.is_blocked(3, 2));
    g.set(3, 2, Tile::empty());
    assert!(!g.is_blocked(3, 2));
    assert_eq!(g.get(3, 2).inner, Type::Floor);
    assert_eq!(g.get(4, 2).inner, Type::Wall);
}

#[test]
fn index_to_pos_inverts_addressing() {
    let g = TileGrid::filled_with_walls(8, 6);
    assert_eq!(g.index_to_pos(0), (0, 0));
    assert_eq!(g.index_to_pos(7), (7, 0));
    assert_eq!(g.index_to_pos(8), (0, 1));
    assert_eq!(g.index_to_pos(19), (3, 2));
}

#[test]
fn explored_count_counts_floor_and_passage() {
    let mut g = TileGrid::filled_with_walls(4, 4);
    g.set(1, 1, Tile::empty());
    g.set(2, 1, Tile::debug());
    assert_eq!(g.explored_count(), (0, 2));
    let mut t = Tile::empty();
    t.explored = true;
    g.set(1, 1, t);
    assert_eq!(g.explored_count(), (1, 2));
}

// The worked layout: a 10x6 room at (5,5)-(15,11) and an 8x6 room at
// (30,5)-(38,11), the tunnel bending horizontally first.
#[test]
fn two_room_layout() {
    let candidates = vec![Rect::new(5, 5, 10, 6), Rect::new(30, 5, 8, 6)];
    let dirs = vec![true, true];
    let (g, start, rooms) = TileGrid::generate_with(80, 40, &candidates, &dirs);
    assert_eq!(start, Some((10, 8)));
    assert_eq!(rooms.len(), 2);
    assert_eq!(rooms[0].center(), (10, 8));
    assert_eq!(rooms[1].center(), (34, 8));
    // every interior cell of both rooms is floor
    for room in &rooms {
        for x in (room.x1 + 1)..room.x2 {
            for y in (room.y1 + 1)..room.y2 {
                assert_eq!(g.get(x, y).inner, Type::Floor);
            }
        }
    }
    // a continuous walkable path joins the two centres along row 8
    for x in 10..=34 {
        assert!(!g.is_blocked(x, 8));
    }
}

#[test]
fn overlapping_candidate_is_rejected() {
    let candidates = vec![Rect::new(5, 5, 10, 6), Rect::new(10, 5, 6, 6)];
    let dirs = vec![false, false];
    let (_g, start, rooms) = TileGrid::generate_with(80, 40, &candidates, &dirs);
    assert_eq!(rooms.len(), 1);
    assert_eq!(start, Some((10, 8)));
}

#[test]
fn accepted_rooms_do_not_overlap() {
    let config = GenConfig::new(30, 6, 10, 80, 40).unwrap();
    let (_g, _start, rooms) = TileGrid::new(80, 40, &config);
    assert!(!rooms.is_empty());
    for i in 0..rooms.len() {
        for j in (i + 1)..rooms.len() {
            assert!(!rooms[i].intersects_with(&rooms[j]));
        }
    }
}

#[test]
fn generated_dungeon_is_connected() {
    let config = GenConfig::new(30, 6, 10, 80, 40).unwrap();
    let (g, start, _rooms) = TileGrid::new(80, 40, &config);
    assert!(!g.is_blocked(start.0, start.1));
    let mut seen = vec![false; 80 * 40];
    let mut queue = vec![start];
    seen[(start.0 + start.1 * 80) as usize] = true;
    while let Some((x, y)) = queue.pop() {
        for (dx, dy) in [(1, 0), (-1, 0), (0, 1), (0, -1)] {
            let (nx, ny) = (x + dx, y + dy);
            if nx >= 0 && nx < 80 && ny >= 0 && ny < 40 && !g.is_blocked(nx, ny) {
                let idx = (nx + ny * 80) as usize;
                if !seen[idx] {
                    seen[idx] = true;
                    queue.push((nx, ny));
                }
            }
        }
    }
    for y in 0..40 {
        for x in 0..80 {
            if !g.is_blocked(x, y) {
                assert!(seen[(x + y * 80) as usize]);
            }
        }
    }
}

#[test]
fn generated_dungeon_starts_unexplored() {
    let config = GenConfig::new(10, 6, 10, 80, 40).unwrap();
    let (g, _start, _rooms) = TileGrid::new(80, 40, &config);
    assert_eq!(g.explored_count().0, 0);
    assert!(g.explored_count().1 > 0);
}

#[test]
fn config_validation() {
    assert!(GenConfig::new(30, 6, 10, 80, 40).is_some());
    assert!(GenConfig::new(0, 6, 10, 80, 40).is_none());
    assert!(GenConfig::new(30, 10, 6, 80, 40).is_none());
    assert!(GenConfig::new(30, 2, 10, 80, 40).is_none());
    assert!(GenConfig::new(30, 6, 79, 80, 40).is_none());
}
