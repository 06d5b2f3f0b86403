//! Entities: the player and the monsters, and the ordered store that keeps
//! the player pinned at index 0.

use vstd::prelude::*;

use crate::tile::Color;

verus! {

/// Combat statistics.  Attack resolution reports events but does not yet
/// apply a damage formula; these are the stats a formula would use.
#[derive(Clone, Copy, Debug, PartialEq, Eq, Structural)]
pub struct Fighter {
    pub max_hp: i32,
    pub hp: i32,
    pub defense: i32,
    pub power: i32,
}

impl Fighter {
    /// A fresh fighter at full hit points.
    pub fn new(hp: i32, defense: i32, power: i32) -> (f: Fighter)
        ensures
            f == (Fighter { max_hp: hp, hp, defense, power }),
    {
        Fighter { max_hp: hp, hp, defense, power }
    }
}

/// A marker making an entity AI-controlled: it acts on its own each turn.
#[derive(Clone, Copy, Debug, PartialEq, Eq, Structural)]
pub struct AI;

/// The largest coordinate magnitude an entity may sit at; keeps every
/// distance computation far from overflow.
pub open spec fn coord_bound() -> int {
    0x100000
}

/// An entity's coordinates are within the coordinate bound.
pub open spec fn object_coords_ok(o: Object) -> bool {
    -coord_bound() <= o.x <= coord_bound() && -coord_bound() <= o.y <= coord_bound()
}

/// One entity: the player or a monster.
pub struct Object {
    pub x: i32,
    pub y: i32,
    pub glyph: char,
    pub color: Color,
    pub name: String,
    pub blocks: bool,
    pub alive: bool,
    pub fighter: Option<Fighter>,
    pub ai: Option<AI>,
}

impl Object {
    /// A new, living entity with no fighter stats and no AI.
    pub fn new(x: i32, y: i32, glyph: char, color: Color, name: &str, blocks: bool) -> (o: Object)
        ensures
            o.x == x,
            o.y == y,
            o.glyph == glyph,
            o.color == color,
            o.name@ == name@,
            o.blocks == blocks,
            o.alive,
            o.fighter is None,
            o.ai is None,
    {
        Object {
            x,
            y,
            glyph,
            color,
            name: name.to_string(),
            blocks,
            alive: true,
            fighter: None,
            ai: None,
        }
    }

    /// Shift the entity by the given amount.
    pub fn move_by(&mut self, dx: i32, dy: i32)
        requires
            object_coords_ok(*old(self)),
            -2 <= dx <= 2,
            -2 <= dy <= 2,
        ensures
            final(self).x == old(self).x + dx,
            final(self).y == old(self).y + dy,
            *final(self) == (Object { x: final(self).x, y: final(self).y, ..*old(self) }),
    {
        self.x = self.x + dx;
        self.y = self.y + dy;
    }

    /// The difference to `pos` and the squared Euclidean distance to it.
    pub fn distance_to_pos(&self, pos: (i32, i32)) -> (r: (i32, i32, i64))
        requires
            object_coords_ok(*self),
            -coord_bound() <= pos.0 <= coord_bound(),
            -coord_bound() <= pos.1 <= coord_bound(),
        ensures
            r.0 == pos.0 - self.x,
            r.1 == pos.1 - self.y,
            r.2 == r.0 * r.0 + r.1 * r.1,
    {
        let dx = pos.0 - self.x;
        let dy = pos.1 - self.y;
        proof {
            assert(0 <= (dx as i64) * (dx as i64) <= 0x40000000000 && 0 <= (dy as i64) * (
            dy as i64) <= 0x40000000000) by (nonlinear_arith)
                requires
                    -0x200000 <= dx <= 0x200000,
                    -0x200000 <= dy <= 0x200000,
            ;
        }
        let d2 = (dx as i64) * (dx as i64) + (dy as i64) * (dy as i64);
        (dx, dy, d2)
    }

    /// The difference to another entity and the squared Euclidean distance
    /// to it.
    pub fn distance_to(&self, other: &Object) -> (r: (i32, i32, i64))
        requires
            object_coords_ok(*self),
            object_coords_ok(*other),
        ensures
            r.0 == other.x - self.x,
            r.1 == other.y - self.y,
            r.2 == r.0 * r.0 + r.1 * r.1,
    {
        self.distance_to_pos(other.pos())
    }

    /// The entity's position.
    pub fn pos(&self) -> (p: (i32, i32))
        ensures
            p == (self.x, self.y),
    {
        (self.x, self.y)
    }

    /// Place the entity at `pos`.
    pub fn set_pos(&mut self, pos: (i32, i32))
        ensures
            *final(self) == (Object { x: pos.0, y: pos.1, ..*old(self) }),
    {
        let (x, y) = pos;
        self.x = x;
        self.y = y;
    }

    /// Whether the entity blocks movement into its tile.
    pub fn blocks(&self) -> (b: bool)
        ensures
            b == self.blocks,
    {
        self.blocks
    }

    /// Whether the entity is alive.
    pub fn alive(&self) -> (b: bool)
        ensures
            b == self.alive,
    {
        self.alive
    }

    /// The entity's display name.
    pub fn name(&self) -> (r: &str)
        ensures
            r@ == self.name@,
    {
        self.name.as_str()
    }

    /// Give the entity fighter statistics.
    pub fn set_fighter(&mut self, fgh: Fighter)
        ensures
            *final(self) == (Object { fighter: Some(fgh), ..*old(self) }),
    {
        self.fighter = Some(fgh);
    }

    /// Put the entity under AI control.
    pub fn set_ai(&mut self, ai: AI)
        ensures
            *final(self) == (Object { ai: Some(ai), ..*old(self) }),
    {
        self.ai = Some(ai);
    }

    /// The entity's AI marker, if any.
    pub fn ai(&self) -> (r: &Option<AI>)
        ensures
            r == &self.ai,
    {
        &self.ai
    }
}

/// The ordered entity store.  The entity at index 0 is the player; every
/// later index is a monster, and an entity's index never changes (the
/// index is its identity for turn resolution).
pub struct Objects(pub Vec<Object>);

impl Objects {
    /// A store holding only the player.
    pub fn new(player: Object) -> (s: Objects)
        ensures
            s.0@ =~= seq![player],
    {
        let mut v: Vec<Object> = Vec::new();
        v.push(player);
        Objects(v)
    }

    /// How many entities the store holds.
    pub fn len(&self) -> (n: usize)
        ensures
            n == self.0@.len(),
    {
        self.0.len()
    }

    /// The entity at index `i`.
    pub fn get(&self, i: usize) -> (o: &Object)
        requires
            i < self.0@.len(),
        ensures
            *o == self.0@[i as int],
    {
        &self.0[i]
    }

    /// A mutable borrow of the entity at index `i`; only that entity
    /// changes through it.
    pub fn get_mut(&mut self, i: usize) -> (o: &mut Object)
        requires
            i < old(self).0@.len(),
        ensures
            *o == old(self).0@[i as int],
            final(self).0@ == old(self).0@.update(i as int, *final(o)),
    {
        &mut self.0[i]
    }

    /// Append a monster.
    pub fn push(&mut self, o: Object)
        ensures
            final(self).0@ == old(self).0@.push(o),
    {
        self.0.push(o);
    }

    /// The player: the entity pinned at index 0.
    pub fn player(&self) -> (o: &Object)
        requires
            self.0@.len() > 0,
        ensures
            *o == self.0@[crate::constants::PLAYER_POS as int],
    {
        &self.0[crate::constants::PLAYER_POS]
    }

    /// A mutable borrow of the player.
    pub fn player_mut(&mut self) -> (o: &mut Object)
        requires
            old(self).0@.len() > 0,
        ensures
            *o == old(self).0@[crate::constants::PLAYER_POS as int],
            final(self).0@ == old(self).0@.update(
                crate::constants::PLAYER_POS as int,
                *final(o),
            ),
    {
        &mut self.0[crate::constants::PLAYER_POS]
    }

    /// The monsters: every entity after the player, in index order.
    pub fn monsters(&self) -> (m: &[Object])
        requires
            self.0@.len() > 0,
        ensures
            m@ == self.0@.subrange(crate::constants::PLAYER_POS as int + 1, self.0@.len() as int),
    {
        vstd::slice::slice_subrange(
            self.0.as_slice(),
            crate::constants::PLAYER_POS + 1,
            self.0.len(),
        )
    }

    /// Place the player at `pos`.
    pub fn set_player_pos(&mut self, pos: (i32, i32))
        requires
            old(self).0@.len() > 0,
        ensures
            final(self).0@ == old(self).0@.update(
                crate::constants::PLAYER_POS as int,
                (Object { x: pos.0, y: pos.1, ..old(self).0@[crate::constants::PLAYER_POS as int] }),
            ),
    {
        self.player_mut().set_pos(pos)
    }
}

} // verus!
