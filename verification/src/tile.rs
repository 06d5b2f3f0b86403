//! Per-cell terrain state: kind, movement/sight blocking, exploration flag
//! and the colour pair used for unseen/seen rendering.

use vstd::prelude::*;

verus! {

/// The terrain kind of a tile.  `Passage` is a tunnel carved through wall;
/// it is walkable and transparent like `Floor` but visually distinct.
#[derive(Clone, Copy, Debug, PartialEq, Eq, Structural)]
pub enum Type {
    Wall,
    Floor,
    Passage,
}

/// A plain RGB colour value.
#[derive(Clone, Copy, Debug, PartialEq, Eq, Structural)]
pub struct Color {
    pub r: u8,
    pub g: u8,
    pub b: u8,
}

/// The colour pair of a tile: `light` when currently visible, `dark` when
/// only remembered.
#[derive(Clone, Copy, Debug, PartialEq, Eq, Structural)]
pub struct Colors {
    pub light: Color,
    pub dark: Color,
}

impl Colors {
    /// Select the colour for the given visibility.
    pub fn get(self, visible: bool) -> (c: Color)
        ensures
            c == (if visible {
                self.light
            } else {
                self.dark
            }),
    {
        if visible {
            self.light
        } else {
            self.dark
        }
    }
}

/// One grid cell's terrain state.
#[derive(Clone, Copy, Debug, PartialEq, Eq, Structural)]
pub struct Tile {
    pub blocked: bool,
    pub block_sight: bool,
    pub explored: bool,
    pub colors: Colors,
    pub inner: Type,
}

/// A tile that counts toward exploration progress: carved floor or
/// passage.
pub open spec fn is_explorable(t: Tile) -> bool {
    t.inner == Type::Floor || t.inner == Type::Passage
}

/// The tile invariant: a wall blocks movement and sight, floor and passage
/// tiles block neither.
pub open spec fn tile_wf(t: Tile) -> bool {
    match t.inner {
        Type::Wall => t.blocked && t.block_sight,
        Type::Floor => !t.blocked && !t.block_sight,
        Type::Passage => !t.blocked && !t.block_sight,
    }
}

/// The exact tile `Tile::empty` builds.
pub open spec fn spec_floor_tile() -> Tile {
    Tile {
        blocked: false,
        block_sight: false,
        explored: false,
        colors: Colors {
            light: Color { r: 200, g: 180, b: 50 },
            dark: Color { r: 50, g: 50, b: 150 },
        },
        inner: Type::Floor,
    }
}

/// The exact tile `Tile::wall` builds.
pub open spec fn spec_wall_tile() -> Tile {
    Tile {
        blocked: true,
        block_sight: true,
        explored: false,
        colors: Colors {
            light: Color { r: 130, g: 110, b: 50 },
            dark: Color { r: 0, g: 0, b: 100 },
        },
        inner: Type::Wall,
    }
}

/// The exact tile `Tile::debug` builds (the carved-tunnel tile).
pub open spec fn spec_passage_tile() -> Tile {
    Tile {
        blocked: false,
        block_sight: false,
        explored: false,
        colors: Colors {
            light: Color { r: 255, g: 207, b: 191 },
            dark: Color { r: 255, g: 0, b: 255 },
        },
        inner: Type::Passage,
    }
}

impl Tile {
    /// An unexplored floor tile.
    pub fn empty() -> (t: Tile)
        ensures
            t == spec_floor_tile(),
            tile_wf(t),
    {
        Tile {
            explored: false,
            blocked: false,
            block_sight: false,
            colors: Colors {
                dark: Color { r: 50, g: 50, b: 150 },
                light: Color { r: 200, g: 180, b: 50 },
            },
            inner: Type::Floor,
        }
    }

    /// An unexplored wall tile.
    pub fn wall() -> (t: Tile)
        ensures
            t == spec_wall_tile(),
            tile_wf(t),
    {
        Tile {
            explored: false,
            blocked: true,
            block_sight: true,
            colors: Colors {
                dark: Color { r: 0, g: 0, b: 100 },
                light: Color { r: 130, g: 110, b: 50 },
            },
            inner: Type::Wall,
        }
    }

    /// The tile a tunnel leaves behind: walkable, transparent, and coloured
    /// so that carved passages stand out.
    pub fn debug() -> (t: Tile)
        ensures
            t == spec_passage_tile(),
            tile_wf(t),
    {
        Tile {
            explored: false,
            blocked: false,
            block_sight: false,
            colors: Colors {
                dark: Color { r: 255, g: 0, b: 255 },
                light: Color { r: 255, g: 207, b: 191 },
            },
            inner: Type::Passage,
        }
    }

    /// The render colour of this tile for the given visibility.
    pub fn get_color(&self, visible: bool) -> (c: Color)
        ensures
            c == (if visible {
                self.colors.light
            } else {
                self.colors.dark
            }),
    {
        self.colors.get(visible)
    }
}

} // verus!
