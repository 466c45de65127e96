# sich_engine

The verified core of the Sich Engine, an isometric strategy-game engine.

- `src/world/grid.rs`: the terrain grid (tile heights, passability, per-vertex
  sand weights) with read/write laws and the sand brush.
- `src/world/camera.rs`: zoom presets.
- `src/camera.rs`: keyboard panning directions.
- `src/render/terrain_renderer.rs`: visible window, per-tile texture variation,
  quad planning and packing of quads into meshes.
- `src/assets/mod.rs`: decoding of GSC bitmaps (8-bit BMP with an external
  palette) into RGBA.
- `app/`: the Bevy program, the macroquad mesh glue and all floating-point
  arithmetic (projection, zoom factors, relief, sand falloff, vertex data).
