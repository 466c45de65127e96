//! Verified core of an isometric terrain engine: the terrain grid, the
//! camera zoom presets, the terrain mesh batching rules, the keyboard pan
//! rules and the GSC bitmap decoder.

pub mod world;
pub mod assets;
pub mod render;
pub mod camera;
