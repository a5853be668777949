//! A deterministic, coordinate-addressed ASCII world: every integer coordinate
//! pair maps to a tile without any stored terrain.

pub mod hash;
pub mod tile;
pub mod world;

pub use tile::{Biome, Tile};
pub use world::World;
