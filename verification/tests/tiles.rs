use roguecore::tile::{Color, Tile, Type};

#[test]
fn floor_tile_blocks_nothing() {
    let t = Tile::empty();
    assert!(!t.blocked);
    assert!(!t.block_sight);
    assert!(!t.explored);
    assert_eq!(t.inner, Type::Floor);
}

#[test]
fn wall_tile_blocks_movement_and_sight() {
    let t = Tile::wall();
    assert!(t.blocked);
    assert!(t.block_sight);
    assert!(!t.explored);
    assert_eq!(t.inner, Type::Wall);
}

#[test]
fn passage_tile_is_walkable_and_transparent() {
    let t = Tile::debug();
    assert!(!t.blocked);
    assert!(!t.block_sight);
    assert_eq!(t.inner, Type::Passage);
}

#[test]
fn get_color_selects_light_when_visible() {
    let t = Tile::empty();
    assert_eq!(t.get_color(true), Color { r: 200, g: 180, b: 50 });
    assert_eq!(t.get_color(false), Color { r: 50, g: 50, b: 150 });
    let w = Tile::wall();
    assert_eq!(w.get_color(true), Color { r: 130, g: 110, b: 50 });
    assert_eq!(w.get_color(false), Color { r: 0, g: 0, b: 100 });
}
