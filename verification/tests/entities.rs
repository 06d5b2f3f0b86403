use roguecore::gen::place_objects;
use roguecore::object::{Fighter, Object, Objects, AI};
use roguecore::rect::Rect;
use roguecore::tile::Color;

fn white() -> Color {
    Color { r: 255, g: 255, b: 255 }
}

#[test]
fn fighter_new_starts_at_full_health() {
    let f = Fighter::new(30, 2, 5);
    assert_eq!(f.max_hp, 30);
    assert_eq!(f.hp, 30);
    assert_eq!(f.defense, 2);
    assert_eq!(f.power, 5);
}

#[test]
fn object_new_and_accessors() {
    let o = Object::new(3, 7, '@', white(), "player", true);
    assert_eq!(o.pos(), (3, 7));
    assert!(o.blocks());
    assert!(o.alive());
    assert_eq!(o.name(), "player");
    assert!(o.ai().is_none());
}

#[test]
fn move_by_and_set_pos() {
    let mut o = Object::new(3, 7, '@', white(), "player", true);
    o.move_by(1, -1);
    assert_eq!(o.pos(), (4, 6));
    o.set_pos((10, 2));
    assert_eq!(o.pos(), (10, 2));
}

#[test]
fn distances_are_squared_euclidean() {
    let a = Object::new(0, 0, '@', white(), "a", true);
    let b = Object::new(3, 4, 'o', white(), "b", true);
    assert_eq!(a.distance_to(&b), (3, 4, 25));
    assert_eq!(a.distance_to_pos((1, 1)), (1, 1, 2));
    assert_eq!(b.distance_to_pos((0, 0)), (-3, -4, 25));
}

#[test]
fn set_fighter_and_set_ai() {
    let mut o = Object::new(0, 0, 'o', white(), "orc", true);
    o.set_fighter(Fighter::new(10, 0, 3));
    o.set_ai(AI);
    assert_eq!(o.fighter, Some(Fighter::new(10, 0, 3)));
    assert!(o.ai().is_some());
}

#[test]
fn store_pins_the_player_at_index_zero() {
    let mut objects = Objects::new(Object::new(1, 1, '@', white(), "player", true));
    assert_eq!(objects.len(), 1);
    objects.push(Object::new(2, 2, 'o', white(), "orc", true));
    objects.push(Object::new(3, 3, 'T', white(), "troll", true));
    assert_eq!(objects.player().name(), "player");
    let monsters = objects.monsters();
    assert_eq!(monsters.len(), 2);
    assert_eq!(monsters[0].name(), "orc");
    assert_eq!(monsters[1].name(), "troll");
}

#[test]
fn set_player_pos_moves_only_the_player() {
    let mut objects = Objects::new(Object::new(1, 1, '@', white(), "player", true));
    objects.push(Object::new(2, 2, 'o', white(), "orc", true));
    objects.set_player_pos((7, 8));
    assert_eq!(objects.player().pos(), (7, 8));
    assert_eq!(objects.get(1).pos(), (2, 2));
}

#[test]
fn place_objects_appends_monsters_inside_the_room() {
    let room = Rect::new(5, 5, 10, 6);
    let mut objects = Objects::new(Object::new(1, 1, '@', white(), "player", true));
    place_objects(&room, &mut objects);
    assert_eq!(objects.player().pos(), (1, 1));
    assert!(objects.len() >= 1 && objects.len() <= 4);
    for i in 1..objects.len() {
        let m = objects.get(i);
        let (x, y) = m.pos();
        assert!(room.x1 < x && x < room.x2);
        assert!(room.y1 < y && y < room.y2);
        assert!(m.blocks());
        assert!(m.alive());
        assert!(m.ai().is_some());
        assert!(m.fighter.is_some());
        assert!(m.name() == "orc" || m.name() == "troll");
    }
}
