use roguecore::fov::VisibilityEngine;
use roguecore::grid::TileGrid;
use roguecore::object::{Fighter, Object, Objects, AI};
use roguecore::tile::{Color, Tile};
use roguecore::turn::{
    handle_command, is_move_blocked, move_object, move_or_attack, take_turn, Command, EnemyAction,
    PlayerAction,
};

// A 20x9 map whose inner area is open floor, with walls on the border.
fn open_hall() -> TileGrid {
    let mut g = TileGrid::filled_with_walls(20, 9);
    for x in 1..19 {
        for y in 1..8 {
            g.set(x, y, Tile::empty());
        }
    }
    g
}

fn white() -> Color {
    Color { r: 255, g: 255, b: 255 }
}

fn player_at(x: i32, y: i32) -> Object {
    let mut p = Object::new(x, y, '@', white(), "player", true);
    p.set_fighter(Fighter::new(30, 2, 5));
    p
}

fn monster_at(x: i32, y: i32) -> Object {
    let mut m = Object::new(x, y, 'o', Color { r: 63, g: 127, b: 63 }, "orc", true);
    m.set_fighter(Fighter::new(10, 0, 3));
    m.set_ai(AI);
    m
}

#[test]
fn moving_into_a_wall_changes_nothing() {
    let g = open_hall();
    let mut objects = Objects::new(player_at(1, 4));
    let ev = move_or_attack(&g, &mut objects, 0, (-1, 0));
    assert_eq!(ev, None);
    assert_eq!(objects.player().pos(), (1, 4));
}

#[test]
fn moving_into_open_floor_moves() {
    let g = open_hall();
    let mut objects = Objects::new(player_at(5, 4));
    let ev = move_or_attack(&g, &mut objects, 0, (1, 0));
    assert_eq!(ev, Some(EnemyAction::Move(0, (6, 4))));
    assert_eq!(objects.player().pos(), (6, 4));
}

#[test]
fn moving_into_a_blocking_entity_attacks_instead() {
    let g = open_hall();
    let mut objects = Objects::new(player_at(5, 4));
    objects.push(monster_at(6, 4));
    let ev = move_or_attack(&g, &mut objects, 0, (1, 0));
    assert_eq!(ev, Some(EnemyAction::Attack(0, 1)));
    assert_eq!(objects.player().pos(), (5, 4));
    assert_eq!(objects.get(1).pos(), (6, 4));
}

#[test]
fn move_object_respects_terrain_and_entities() {
    let g = open_hall();
    let mut objects = Objects::new(player_at(5, 4));
    objects.push(monster_at(6, 4));
    // monster refused into the player's tile
    assert!(!move_object(&g, &mut objects, 1, (-1, 0)));
    assert_eq!(objects.get(1).pos(), (6, 4));
    // monster steps into open floor
    assert!(move_object(&g, &mut objects, 1, (1, 0)));
    assert_eq!(objects.get(1).pos(), (7, 4));
    // monster refused into the border wall from (18, 4)
    let mut far = Objects::new(player_at(1, 1));
    far.push(monster_at(18, 4));
    assert!(!move_object(&g, &mut far, 1, (1, 0)));
    assert_eq!(far.get(1).pos(), (18, 4));
}

#[test]
fn is_move_blocked_covers_offgrid_terrain_and_entities() {
    let g = open_hall();
    let mut objects = Objects::new(player_at(5, 4));
    objects.push(monster_at(6, 4));
    assert!(is_move_blocked(&g, &objects, -1, 4));
    assert!(is_move_blocked(&g, &objects, 0, 0));
    assert!(is_move_blocked(&g, &objects, 6, 4));
    assert!(!is_move_blocked(&g, &objects, 7, 4));
}

#[test]
fn quit_and_toggles_take_no_turn() {
    let g = open_hall();
    let mut objects = Objects::new(player_at(5, 4));
    assert_eq!(handle_command(Command::Quit, &g, &mut objects).0, PlayerAction::Exit);
    assert_eq!(
        handle_command(Command::ToggleFullscreen, &g, &mut objects).0,
        PlayerAction::DidntTakeTurn
    );
    assert_eq!(
        handle_command(Command::ToggleDebugVisibility, &g, &mut objects).0,
        PlayerAction::DidntTakeTurn
    );
    assert_eq!(handle_command(Command::NoOp, &g, &mut objects).0, PlayerAction::DidntTakeTurn);
    assert_eq!(objects.player().pos(), (5, 4));
}

#[test]
fn dead_player_takes_no_turn() {
    let g = open_hall();
    let mut p = player_at(5, 4);
    p.alive = false;
    let mut objects = Objects::new(p);
    let (action, ev) = handle_command(Command::MoveRight, &g, &mut objects);
    assert_eq!(action, PlayerAction::DidntTakeTurn);
    assert_eq!(ev, None);
    assert_eq!(objects.player().pos(), (5, 4));
}

// Turn ordering: monsters resolve in index order, against the player's
// position as updated by this turn's move.
#[test]
fn monsters_resolve_in_index_order_after_the_player_moves() {
    let mut g = open_hall();
    let mut objects = Objects::new(player_at(5, 4));
    objects.push(monster_at(7, 4)); // index 1: adjacent once the player steps right
    objects.push(monster_at(12, 4)); // index 2: distant, walks toward the player
    let mut fov = VisibilityEngine::rebuild_from(&g);
    fov.recompute(&mut g, 5, 4, 10, true);

    let (action, pev, mevs) = take_turn(Command::MoveRight, &g, &mut objects, &fov);
    assert_eq!(action, PlayerAction::TookTurn);
    assert_eq!(pev, Some(EnemyAction::Move(0, (6, 4))));
    assert_eq!(objects.player().pos(), (6, 4));

    // monster 1 saw the player at the post-move (6, 4): distance 1, so it
    // attacks; with the pre-move position it would have walked instead
    assert_eq!(mevs.len(), 2);
    assert_eq!(mevs[0], EnemyAction::Attack(1, 0));
    // monster 2 resolves after monster 1, stepping toward the player
    assert_eq!(mevs[1], EnemyAction::Move(2, (11, 4)));
    assert_eq!(objects.get(2).pos(), (11, 4));
}

#[test]
fn unseen_monster_idles() {
    let mut g = open_hall();
    let mut objects = Objects::new(player_at(2, 4));
    objects.push(monster_at(18, 4)); // far outside the torch radius
    let mut fov = VisibilityEngine::rebuild_from(&g);
    fov.recompute(&mut g, 2, 4, 4, true);
    let (_action, _pev, mevs) = take_turn(Command::MoveUp, &g, &mut objects, &fov);
    assert_eq!(mevs, vec![EnemyAction::Idle(1)]);
    assert_eq!(objects.get(1).pos(), (18, 4));
}

#[test]
fn monster_without_ai_does_not_act() {
    let mut g = open_hall();
    let mut objects = Objects::new(player_at(5, 4));
    let mut statue = Object::new(8, 4, 's', white(), "statue", true);
    statue.set_fighter(Fighter::new(5, 0, 0));
    objects.push(statue); // no AI marker
    let mut fov = VisibilityEngine::rebuild_from(&g);
    fov.recompute(&mut g, 5, 4, 10, true);
    let (_action, _pev, mevs) = take_turn(Command::MoveUp, &g, &mut objects, &fov);
    assert_eq!(mevs, vec![]);
    assert_eq!(objects.get(1).pos(), (8, 4));
}
