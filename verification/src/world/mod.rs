//! The terrain world: the grid of tiles and the camera presets.

pub mod grid;
pub mod camera;
