//! Building the terrain's render batches.

pub mod terrain_renderer;
