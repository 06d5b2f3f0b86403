//! The game's tuning constants: screen and map dimensions, generation
//! parameters, field-of-view settings and the entity-store conventions.

use vstd::prelude::*;

verus! {

pub const SCREEN_WIDTH: i32 = 80;

pub const SCREEN_HEIGHT: i32 = 50;

pub const FPS_LIMIT: i32 = 20;

pub const MAP_WIDTH: i32 = 80;

pub const MAP_HEIGHT: i32 = 40;

pub const ROOM_MAX_SIZE: i32 = 10;

pub const ROOM_MIN_SIZE: i32 = 6;

pub const MAX_ROOMS: i32 = 30;

pub const FOV_LIGHT_WALLS: bool = true;

pub const TORCH_RADIUS: i32 = 10;

/// The index of the player in the entity store.
pub const PLAYER_POS: usize = 0;

/// The most monsters one room is populated with.
pub const MAX_ROOM_MONSTERS: i32 = 3;

} // verus!
