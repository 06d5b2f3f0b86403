pub mod combinations;
pub mod constants;
pub mod fov;
pub mod gen;
pub mod grid;
pub mod object;
pub mod reach;
pub mod rect;
pub mod rng;
pub mod tile;
pub mod turn;
