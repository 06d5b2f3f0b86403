//! Turn resolution: one player command, then every AI-controlled monster
//! in index order.  Movement is refused by blocking terrain and blocking
//! entities; moving into a blocking entity resolves as an attack for the
//! player, and a monster adjacent to a visible player attacks instead of
//! moving.

use vstd::prelude::*;

use crate::constants::PLAYER_POS;
use crate::fov::{fov_dims_wf, fov_visible_at, sign_int, VisibilityEngine};
use crate::grid::{grid_wf, walkable_at, TileGrid};
use crate::object::{object_coords_ok, Object, Objects};

verus! {

/// The outcome of one player command.
#[derive(Clone, Copy, Debug, PartialEq, Eq, Structural)]
pub enum PlayerAction {
    TookTurn,
    DidntTakeTurn,
    Exit,
}

/// An abstract input command, as decoded from a keypress by the
/// presentation layer.
#[derive(Clone, Copy, Debug, PartialEq, Eq, Structural)]
pub enum Command {
    MoveUp,
    MoveDown,
    MoveLeft,
    MoveRight,
    ToggleFullscreen,
    ToggleDebugVisibility,
    Quit,
    NoOp,
}

/// One entity's resolved action, for the status log: an attack names
/// attacker and defender by entity index, a move names the mover and its
/// new position, an idle names the idler.
#[derive(Clone, Copy, Debug, PartialEq, Eq)]
pub enum EnemyAction {
    Attack(usize, usize),
    Idle(usize),
    Move(usize, (i32, i32)),
}

/// Some entity with `blocks` set stands at `(x, y)`.
pub open spec fn blocking_at(objs: Seq<Object>, x: int, y: int) -> bool {
    exists|i: int|
        0 <= i < objs.len() && (#[trigger] objs[i]).blocks && objs[i].x == x && objs[i].y == y
}

/// The first index at or after `i` of a blocking entity standing at
/// `(x, y)`, or -1 when there is none.
pub open spec fn blocking_index_from(objs: Seq<Object>, x: int, y: int, i: int) -> int
    decreases objs.len() - i,
{
    if i < 0 || i >= objs.len() {
        -1
    } else if objs[i].blocks && objs[i].x == x && objs[i].y == y {
        i
    } else {
        blocking_index_from(objs, x, y, i + 1)
    }
}

/// The lowest index of a blocking entity standing at `(x, y)`, or -1.
pub open spec fn blocking_index(objs: Seq<Object>, x: int, y: int) -> int {
    blocking_index_from(objs, x, y, 0)
}

/// A move into `(x, y)` is refused: the tile is off-grid or blocking
/// terrain, or a blocking entity stands there.
pub open spec fn move_blocked(g: TileGrid, objs: Seq<Object>, x: int, y: int) -> bool {
    !walkable_at(g, x, y) || blocking_at(objs, x, y)
}

/// The entity `index` moved to `(x, y)`, everything else unchanged.
pub open spec fn with_moved(objs: Seq<Object>, index: int, x: int, y: int) -> Seq<Object> {
    objs.update(index, Object { x: x as i32, y: y as i32, ..objs[index] })
}

/// What `move_object` does: step `index` by `delta` unless the target is
/// blocked, in which case nothing changes.
pub open spec fn move_object_outcome(
    g: TileGrid,
    objs: Seq<Object>,
    index: int,
    delta: (int, int),
) -> (Seq<Object>, bool) {
    let nx = objs[index].x + delta.0;
    let ny = objs[index].y + delta.1;
    if !move_blocked(g, objs, nx, ny) {
        (with_moved(objs, index, nx, ny), true)
    } else {
        (objs, false)
    }
}

/// What `move_or_attack` does: a blocking entity on the target tile is
/// attacked (nobody moves); otherwise a walkable target is stepped onto;
/// otherwise (wall or off-grid) nothing happens.
pub open spec fn player_move_outcome(
    g: TileGrid,
    objs: Seq<Object>,
    index: int,
    delta: (int, int),
) -> (Seq<Object>, Option<EnemyAction>) {
    let nx = objs[index].x + delta.0;
    let ny = objs[index].y + delta.1;
    if blocking_index(objs, nx, ny) >= 0 {
        (objs, Some(EnemyAction::Attack(index as usize, blocking_index(objs, nx, ny) as usize)))
    } else if walkable_at(g, nx, ny) {
        (
            with_moved(objs, index, nx, ny),
            Some(EnemyAction::Move(index as usize, (nx as i32, ny as i32))),
        )
    } else {
        (objs, None)
    }
}

/// Whether the command is a directional move.
pub open spec fn is_move_command(cmd: Command) -> bool {
    cmd == Command::MoveUp || cmd == Command::MoveDown || cmd == Command::MoveLeft || cmd
        == Command::MoveRight
}

/// The unit step of a directional move command.
pub open spec fn command_delta(cmd: Command) -> (int, int) {
    match cmd {
        Command::MoveUp => (0, -1),
        Command::MoveDown => (0, 1),
        Command::MoveLeft => (-1, 0),
        Command::MoveRight => (1, 0),
        _ => (0, 0),
    }
}

/// The player phase of a turn: quit ends the session; a move command
/// while the player is alive resolves as move/attack/no-op and takes the
/// turn; everything else (toggles, no-op, moves while dead) takes no
/// turn and changes nothing.
pub open spec fn player_phase(cmd: Command, g: TileGrid, objs: Seq<Object>) -> (
    Seq<Object>,
    PlayerAction,
    Option<EnemyAction>,
) {
    if cmd == Command::Quit {
        (objs, PlayerAction::Exit, None)
    } else if is_move_command(cmd) && objs[PLAYER_POS as int].alive {
        let mo = player_move_outcome(g, objs, PLAYER_POS as int, command_delta(cmd));
        (mo.0, PlayerAction::TookTurn, mo.1)
    } else {
        (objs, PlayerAction::DidntTakeTurn, None)
    }
}

/// One monster's decision: idle when its tile is not in the player's
/// visible set; step one tile straight toward the player when at squared
/// distance at least 4 (Euclidean distance at least 2), idling if that
/// step is blocked; attack the player when closer.
pub open spec fn monster_decision(
    g: TileGrid,
    objs: Seq<Object>,
    f: VisibilityEngine,
    id: int,
) -> EnemyAction {
    let m = objs[id];
    let p = objs[PLAYER_POS as int];
    if !fov_visible_at(f, m.x as int, m.y as int) {
        EnemyAction::Idle(id as usize)
    } else if (p.x - m.x) * (p.x - m.x) + (p.y - m.y) * (p.y - m.y) >= 4 {
        let dx = sign_int(p.x - m.x);
        let dy = sign_int(p.y - m.y);
        if !move_blocked(g, objs, m.x + dx, m.y + dy) {
            EnemyAction::Move(id as usize, ((m.x + dx) as i32, (m.y + dy) as i32))
        } else {
            EnemyAction::Idle(id as usize)
        }
    } else {
        EnemyAction::Attack(id as usize, PLAYER_POS)
    }
}

/// The store after one monster acted: only a move decision changes it.
pub open spec fn monster_step(
    g: TileGrid,
    objs: Seq<Object>,
    f: VisibilityEngine,
    id: int,
) -> Seq<Object> {
    match monster_decision(g, objs, f, id) {
        EnemyAction::Move(_, to) => with_moved(objs, id, to.0 as int, to.1 as int),
        _ => objs,
    }
}

/// Resolve every AI-controlled monster from index `i` upward, in index
/// order, each against the store as the previous ones left it.  Returns
/// the final store and the log of actions in resolution order.
pub open spec fn run_monsters(g: TileGrid, objs: Seq<Object>, f: VisibilityEngine, i: int) -> (
    Seq<Object>,
    Seq<EnemyAction>,
)
    decreases objs.len() - i,
{
    if i < 1 || i >= objs.len() {
        (objs, Seq::empty())
    } else if objs[i].ai is Some {
        let stepped = monster_step(g, objs, f, i);
        let rest = run_monsters(g, stepped, f, i + 1);
        (rest.0, seq![monster_decision(g, objs, f, i)] + rest.1)
    } else {
        run_monsters(g, objs, f, i + 1)
    }
}

/// Movement blocking: a refused move changes no position.  A move into
/// blocking terrain or a blocking entity leaves the store untouched, and
/// the player's attack path never moves anybody either.
pub proof fn lemma_movement_blocking(g: TileGrid, objs: Seq<Object>, index: int, delta: (int, int))
    requires
        0 <= index < objs.len(),
    ensures
        move_blocked(g, objs, objs[index].x + delta.0, objs[index].y + delta.1)
            ==> move_object_outcome(g, objs, index, delta).0 == objs,
        blocking_index(objs, objs[index].x + delta.0, objs[index].y + delta.1) >= 0
            ==> player_move_outcome(g, objs, index, delta).0 == objs,
        !walkable_at(g, objs[index].x + delta.0, objs[index].y + delta.1)
            ==> player_move_outcome(g, objs, index, delta).0 == objs,
{
    lemma_blocking_index_finds(objs, objs[index].x + delta.0, objs[index].y + delta.1, 0);
}

/// `blocking_index_from` returns -1 exactly when no blocking entity at or
/// after `i` stands at `(x, y)`, and otherwise the first such index.
proof fn lemma_blocking_index_finds(objs: Seq<Object>, x: int, y: int, i: int)
    requires
        0 <= i <= objs.len(),
    ensures
        blocking_index_from(objs, x, y, i) == -1 ==> forall|j: int|
            i <= j < objs.len() ==> !((#[trigger] objs[j]).blocks && objs[j].x == x && objs[j].y
                == y),
        blocking_index_from(objs, x, y, i) != -1 ==> {
            let r = blocking_index_from(objs, x, y, i);
            &&& i <= r < objs.len()
            &&& objs[r].blocks
            &&& objs[r].x == x
            &&& objs[r].y == y
        },
    decreases objs.len() - i,
{
    if i < objs.len() {
        if !(objs[i].blocks && objs[i].x == x && objs[i].y == y) {
            lemma_blocking_index_finds(objs, x, y, i + 1);
        }
    }
}

/// Find the lowest-index blocking entity standing at `(x, y)`.
fn find_blocking(objects: &Objects, x: i32, y: i32) -> (r: Option<usize>)
    ensures
        match r {
            Some(i) => blocking_index(objects.0@, x as int, y as int) == i,
            None => blocking_index(objects.0@, x as int, y as int) == -1,
        },
{
    let n = objects.len();
    let mut i: usize = 0;
    while i < n
        invariant
            n == objects.0@.len(),
            i <= n,
            blocking_index(objects.0@, x as int, y as int) == blocking_index_from(
                objects.0@,
                x as int,
                y as int,
                i as int,
            ),
        decreases n - i,
    {
        let o = objects.get(i);
        if o.blocks() && o.x == x && o.y == y {
            return Some(i);
        }
        i = i + 1;
    }
    None
}

/// Whether a move into `(x, y)` is refused: off-grid, blocking terrain,
/// or a blocking entity standing there.
pub fn is_move_blocked(grid: &TileGrid, objects: &Objects, x: i32, y: i32) -> (b: bool)
    requires
        grid_wf(*grid),
    ensures
        b == move_blocked(*grid, objects.0@, x as int, y as int),
{
    if x < 0 || x >= grid.width || y < 0 || y >= grid.height {
        proof {
            lemma_blocking_index_finds(objects.0@, x as int, y as int, 0);
        }
        return true;
    }
    if grid.is_blocked(x, y) {
        return true;
    }
    match find_blocking(objects, x, y) {
        Some(i) => {
            proof {
                lemma_blocking_index_finds(objects.0@, x as int, y as int, 0);
            }
            true
        },
        None => {
            proof {
                lemma_blocking_index_finds(objects.0@, x as int, y as int, 0);
            }
            false
        },
    }
}

/// Step the entity `index` by `delta` unless the target tile is blocked
/// by terrain or by a blocking entity; a refused move changes nothing.
pub fn move_object(grid: &TileGrid, objects: &mut Objects, index: usize, delta: (i32, i32)) -> (
    moved: bool)
    requires
        grid_wf(*grid),
        index < old(objects).0@.len(),
        object_coords_ok(old(objects).0@[index as int]),
        -1 <= delta.0 <= 1,
        -1 <= delta.1 <= 1,
    ensures
        ({
            let mo = move_object_outcome(
                *grid,
                old(objects).0@,
                index as int,
                (delta.0 as int, delta.1 as int),
            );
            final(objects).0@ == mo.0 && moved == mo.1
        }),
{
    let (x, y) = objects.get(index).pos();
    let (dx, dy) = delta;
    let nx = x + dx;
    let ny = y + dy;
    if !is_move_blocked(grid, objects, nx, ny) {
        let o = objects.get_mut(index);
        o.move_by(dx, dy);
        proof {
            assert(final(objects).0@ =~= with_moved(
                old(objects).0@,
                index as int,
                nx as int,
                ny as int,
            ));
        }
        true
    } else {
        false
    }
}

/// The player's step: a blocking entity on the target tile is attacked
/// (and nobody moves), an unblocked walkable target is stepped onto, and
/// a wall or off-grid target is a no-op.
pub fn move_or_attack(grid: &TileGrid, objects: &mut Objects, index: usize, delta: (i32, i32)) -> (
    ev: Option<EnemyAction>)
    requires
        grid_wf(*grid),
        index < old(objects).0@.len(),
        object_coords_ok(old(objects).0@[index as int]),
        -1 <= delta.0 <= 1,
        -1 <= delta.1 <= 1,
    ensures
        ({
            let mo = player_move_outcome(
                *grid,
                old(objects).0@,
                index as int,
                (delta.0 as int, delta.1 as int),
            );
            final(objects).0@ == mo.0 && ev == mo.1
        }),
{
    let (x, y) = objects.get(index).pos();
    let (dx, dy) = delta;
    let nx = x + dx;
    let ny = y + dy;
    match find_blocking(objects, nx, ny) {
        Some(target) => {
            proof {
                lemma_blocking_index_finds(objects.0@, nx as int, ny as int, 0);
            }
            Some(EnemyAction::Attack(index, target))
        },
        None => {
            if nx >= 0 && nx < grid.width && ny >= 0 && ny < grid.height && !grid.is_blocked(
                nx,
                ny,
            ) {
                let o = objects.get_mut(index);
                o.move_by(dx, dy);
                proof {
                    assert(final(objects).0@ =~= with_moved(
                        old(objects).0@,
                        index as int,
                        nx as int,
                        ny as int,
                    ));
                }
                Some(EnemyAction::Move(index, (nx, ny)))
            } else {
                None
            }
        },
    }
}

/// Resolve one monster's turn: idle when not in the player's visible
/// set, step toward the player at squared distance of at least 4, attack
/// when adjacent.  Only a successful step changes the store.
pub fn ai_take_turn(
    monster_id: usize,
    grid: &TileGrid,
    objects: &mut Objects,
    fov: &VisibilityEngine,
) -> (ev: EnemyAction)
    requires
        grid_wf(*grid),
        fov_dims_wf(*fov),
        0 < monster_id < old(objects).0@.len(),
        object_coords_ok(old(objects).0@[monster_id as int]),
        object_coords_ok(old(objects).0@[PLAYER_POS as int]),
    ensures
        ev == monster_decision(*grid, old(objects).0@, *fov, monster_id as int),
        final(objects).0@ == monster_step(*grid, old(objects).0@, *fov, monster_id as int),
{
    let (mx, my) = objects.get(monster_id).pos();
    if !fov.is_visible(mx, my) {
        return EnemyAction::Idle(monster_id);
    }
    let p = objects.player().pos();
    let (dx, dy, d2) = objects.get(monster_id).distance_to_pos(p);
    if d2 >= 4 {
        let sx: i32 = if dx > 0 {
            1
        } else if dx < 0 {
            -1
        } else {
            0
        };
        let sy: i32 = if dy > 0 {
            1
        } else if dy < 0 {
            -1
        } else {
            0
        };
        let moved = move_object(grid, objects, monster_id, (sx, sy));
        if moved {
            let np = objects.get(monster_id).pos();
            EnemyAction::Move(monster_id, np)
        } else {
            EnemyAction::Idle(monster_id)
        }
    } else {
        EnemyAction::Attack(monster_id, PLAYER_POS)
    }
}

/// Resolve the player phase of one command: quit exits, a directional
/// move while alive resolves as move/attack/no-op and takes the turn,
/// everything else takes no turn.
pub fn handle_command(cmd: Command, grid: &TileGrid, objects: &mut Objects) -> (r: (
    PlayerAction,
    Option<EnemyAction>,
))
    requires
        grid_wf(*grid),
        old(objects).0@.len() > 0,
        object_coords_ok(old(objects).0@[PLAYER_POS as int]),
    ensures
        ({
            let ph = player_phase(cmd, *grid, old(objects).0@);
            final(objects).0@ == ph.0 && r.0 == ph.1 && r.1 == ph.2
        }),
{
    match cmd {
        Command::Quit => (PlayerAction::Exit, None),
        Command::MoveUp | Command::MoveDown | Command::MoveLeft | Command::MoveRight => {
            if objects.player().alive() {
                let delta: (i32, i32) = match cmd {
                    Command::MoveUp => (0, -1),
                    Command::MoveDown => (0, 1),
                    Command::MoveLeft => (-1, 0),
                    _ => (1, 0),
                };
                let ev = move_or_attack(grid, objects, PLAYER_POS, delta);
                (PlayerAction::TookTurn, ev)
            } else {
                (PlayerAction::DidntTakeTurn, None)
            }
        },
        _ => (PlayerAction::DidntTakeTurn, None),
    }
}

/// Resolve every AI-controlled monster once, in index order, against the
/// store as the previous monsters left it.
pub fn process_monsters(grid: &TileGrid, objects: &mut Objects, fov: &VisibilityEngine) -> (evs:
    Vec<EnemyAction>)
    requires
        grid_wf(*grid),
        fov_dims_wf(*fov),
        old(objects).0@.len() > 0,
        forall|i: int|
            0 <= i < old(objects).0@.len() ==> object_coords_ok(#[trigger] old(objects).0@[i]),
    ensures
        ({
            let run = run_monsters(*grid, old(objects).0@, *fov, 1);
            final(objects).0@ == run.0 && evs@ == run.1
        }),
{
    let ghost objs0 = objects.0@;
    let ghost run0 = run_monsters(*grid, objs0, *fov, 1);
    let mut evs: Vec<EnemyAction> = Vec::new();
    let n = objects.len();
    let mut i: usize = 1;
    while i < n
        invariant
            grid_wf(*grid),
            fov_dims_wf(*fov),
            n == objs0.len(),
            objects.0@.len() == n,
            1 <= i,
            i <= n || i == 1,
            run0 == run_monsters(*grid, objs0, *fov, 1),
            run_monsters(*grid, objects.0@, *fov, i as int).0 == run0.0,
            evs@ + run_monsters(*grid, objects.0@, *fov, i as int).1 == run0.1,
            forall|k: int|
                0 <= k < objects.0@.len() ==> object_coords_ok(#[trigger] objects.0@[k]),
        decreases n - i,
    {
        let has_ai = objects.get(i).ai().is_some();
        if has_ai {
            let ghost before = objects.0@;
            let ev = ai_take_turn(i, grid, objects, fov);
            evs.push(ev);
            proof {
                assert(run_monsters(*grid, before, *fov, i as int).0 == run_monsters(
                    *grid,
                    objects.0@,
                    *fov,
                    i as int + 1,
                ).0);
                assert(run_monsters(*grid, before, *fov, i as int).1 == seq![ev] + run_monsters(
                    *grid,
                    objects.0@,
                    *fov,
                    i as int + 1,
                ).1);
                assert(evs@ + run_monsters(*grid, objects.0@, *fov, i as int + 1).1 =~= run0.1);
                assert forall|k: int|
                    0 <= k < objects.0@.len() implies object_coords_ok(
                    #[trigger] objects.0@[k],
                ) by {
                    if objects.0@[k] != before[k] {
                        assert(walkable_at(*grid, objects.0@[k].x as int, objects.0@[k].y as int));
                    }
                }
            }
        } else {
            proof {
                assert(run_monsters(*grid, objects.0@, *fov, i as int) == run_monsters(
                    *grid,
                    objects.0@,
                    *fov,
                    i as int + 1,
                ));
            }
        }
        i = i + 1;
    }
    evs
}

/// Resolve one full turn: the player phase for `cmd`, then, when the
/// turn was taken and the player is alive, every AI-controlled monster
/// in index order against the player's post-move position.  Returns the
/// player action, the player's move/attack event, and the monsters'
/// action log in resolution order.
pub fn take_turn(
    cmd: Command,
    grid: &TileGrid,
    objects: &mut Objects,
    fov: &VisibilityEngine,
) -> (r: (PlayerAction, Option<EnemyAction>, Vec<EnemyAction>))
    requires
        grid_wf(*grid),
        fov_dims_wf(*fov),
        old(objects).0@.len() > 0,
        forall|i: int|
            0 <= i < old(objects).0@.len() ==> object_coords_ok(#[trigger] old(objects).0@[i]),
    ensures
        ({
            let ph = player_phase(cmd, *grid, old(objects).0@);
            let acted = ph.1 == PlayerAction::TookTurn && ph.0[PLAYER_POS as int].alive;
            let run = if acted {
                run_monsters(*grid, ph.0, *fov, 1)
            } else {
                (ph.0, Seq::<EnemyAction>::empty())
            };
            r.0 == ph.1 && r.1 == ph.2 && r.2@ == run.1 && final(objects).0@ == run.0
        }),
{
    let ghost objs0 = objects.0@;
    let (action, pev) = handle_command(cmd, grid, objects);
    proof {
        let ph = player_phase(cmd, *grid, objs0);
        assert forall|k: int| 0 <= k < objects.0@.len() implies object_coords_ok(
            #[trigger] objects.0@[k],
        ) by {
            if objects.0@[k] != objs0[k] {
                assert(walkable_at(*grid, objects.0@[k].x as int, objects.0@[k].y as int));
            }
        }
    }
    let mut took = false;
    match action {
        PlayerAction::TookTurn => {
            took = true;
        },
        _ => {},
    }
    if took && objects.player().alive() {
        let mevs = process_monsters(grid, objects, fov);
        (action, pev, mevs)
    } else {
        (action, pev, Vec::new())
    }
}

} // verus!
