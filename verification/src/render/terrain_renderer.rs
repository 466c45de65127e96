//! Terrain mesh generation. A visible window of tiles is turned, layer by
//! layer, into quads (four corner vertices, two triangles) that are packed
//! into meshes of at most `MAX_MESH_INDICES` indices. Which atlas tile a quad
//! shows comes from a deterministic per-tile hash; what its vertices hold
//! (screen positions, texture coordinates, colours) is left to the caller.

use vstd::prelude::*;
use crate::world::grid::{GridModel, TerrainGrid, row_major, lemma_row_major_bounds};

verus! {

/// A mesh is started afresh once it holds this many indices.
pub const MAX_MESH_INDICES: usize = 3000;

/// Number of atlas tiles per atlas row.
pub const ATLAS_COLUMNS: usize = 4;

/// The window of tiles `start_x..end_x` by `start_y..end_y` that is drawn.
#[derive(Clone, Copy, Debug, PartialEq, Eq, Structural)]
pub struct TileRange {
    pub start_x: usize,
    pub end_x: usize,
    pub start_y: usize,
    pub end_y: usize,
}

/// What a quad of the terrain is drawn from: its tile, the heights of its
/// four corners (top, right, bottom, left) and the atlas cell of its texture.
#[derive(Clone, Copy, Debug, PartialEq, Eq, Structural)]
pub struct TileQuad {
    pub x: usize,
    pub y: usize,
    pub h_top: u8,
    pub h_right: u8,
    pub h_bottom: u8,
    pub h_left: u8,
    pub atlas_col: usize,
    pub atlas_row: usize,
}

/// The tile mixing function: `x * 3266489917 + y * 2654435761` modulo 2^32.
pub open spec fn hash_mix(x: u32, y: u32) -> u32 {
    ((x * 3266489917 + y * 2654435761) % 0x1_0000_0000) as u32
}

/// Per-tile pseudo-random value in `0..100`: the mixed coordinates (each
/// truncated to 32 bits), xor-folded with themselves shifted right by 15.
pub open spec fn spec_tile_hash(x: usize, y: usize) -> u32 {
    let n = hash_mix(x as u32, y as u32);
    (n ^ (n >> 15u32)) % 100
}

/// Texture variation: texture ids 110, 143, 142 and 81 stand for families of
/// atlas tiles, of which the tile hash picks one (110: 50% 110, 25% 109,
/// 25% 108; 143: 50% 143, 50% 139; 142: 50% 142, 50% 139; 81: 50% 81, 25% 82,
/// 25% 80); every other id stands for itself.
pub open spec fn spec_variant_texture_id(texture_id: usize, hash: u32) -> usize {
    if texture_id == 110 {
        if hash < 50 {
            110
        } else if hash < 75 {
            109
        } else {
            108
        }
    } else if texture_id == 143 {
        if hash < 50 {
            143
        } else {
            139
        }
    } else if texture_id == 142 {
        if hash < 50 {
            142
        } else {
            139
        }
    } else if texture_id == 81 {
        if hash < 50 {
            81
        } else if hash < 75 {
            82
        } else {
            80
        }
    } else {
        texture_id
    }
}

/// The window that is drawn: the requested bounds clamped to the last tile
/// index of each axis; nothing for a grid narrower or shorter than two tiles,
/// without tiles, or for a window that is empty after clamping.
pub open spec fn spec_visible_tile_range<W>(
    m: GridModel<W>,
    start_x: usize,
    end_x: usize,
    start_y: usize,
    end_y: usize,
) -> Option<TileRange> {
    if m.width < 2 || m.height < 2 || m.heights.len() == 0 {
        None
    } else {
        let last_x = (m.width - 1) as usize;
        let last_y = (m.height - 1) as usize;
        let sx = if start_x < last_x { start_x } else { last_x };
        let ex = if end_x < last_x { end_x } else { last_x };
        let sy = if start_y < last_y { start_y } else { last_y };
        let ey = if end_y < last_y { end_y } else { last_y };
        if sx >= ex || sy >= ey {
            None
        } else {
            Some(TileRange { start_x: sx, end_x: ex, start_y: sy, end_y: ey })
        }
    }
}

/// `o`'s value, or `d` for `None`.
pub open spec fn or_else<T>(o: Option<T>, d: T) -> T {
    match o {
        Some(v) => v,
        None => d,
    }
}

/// The quad of tile `(x, y)`: the top corner takes the tile's height (0
/// outside the grid); the right, bottom and left corners take the heights
/// of the tiles `(x + 1, y)`, `(x + 1, y + 1)` and `(x, y + 1)`, or the top
/// corner's height outside the grid; the atlas cell is that of the tile's
/// texture variant, `ATLAS_COLUMNS` cells per row.
pub open spec fn tile_quad_at<W>(m: GridModel<W>, x: usize, y: usize, texture_id: usize) -> TileQuad {
    let top = or_else(m.height_at(x as int, y as int), 0u8);
    let id = spec_variant_texture_id(texture_id, spec_tile_hash(x, y));
    TileQuad {
        x,
        y,
        h_top: top,
        h_right: or_else(m.height_at(x + 1, y as int), top),
        h_bottom: or_else(m.height_at(x + 1, y + 1), top),
        h_left: or_else(m.height_at(x as int, y + 1), top),
        atlas_col: id % 4,
        atlas_row: id / 4,
    }
}

/// Number of columns of a window.
pub open spec fn range_cols(r: TileRange) -> int {
    r.end_x - r.start_x
}

/// Number of rows of a window.
pub open spec fn range_rows(r: TileRange) -> int {
    r.end_y - r.start_y
}

/// The quads of one layer: one per tile of the window, row by row.
pub open spec fn planned_tiles<W>(m: GridModel<W>, r: TileRange, texture_id: usize) -> Seq<TileQuad> {
    let cols = range_cols(r);
    Seq::new(
        (cols * range_rows(r)) as nat,
        |i: int|
            tile_quad_at(
                m,
                (r.start_x + i % cols) as usize,
                (r.start_y + i / cols) as usize,
                texture_id,
            ),
    )
}

/// The pseudo-random value of tile `(x, y)`, in `0..100`.
pub fn tile_hash(x: usize, y: usize) -> (h: u32)
    ensures
        h == spec_tile_hash(x, y),
        h < 100,
{
    let a = x as u32;
    let b = y as u32;
    let p = a.wrapping_mul(3266489917);
    let q = b.wrapping_mul(2654435761);
    let n = p.wrapping_add(q);
    proof {
        let m: int = 0x1_0000_0000;
        vstd::arithmetic::div_mod::lemma_add_mod_noop(a * 3266489917, b * 2654435761, m);
        assert(p == (a * 3266489917) % m);
        assert(q == (b * 2654435761) % m);
        if p + q < m {
            vstd::arithmetic::div_mod::lemma_small_mod((p + q) as nat, m as nat);
        } else {
            vstd::arithmetic::div_mod::lemma_small_mod((p + q - m) as nat, m as nat);
            vstd::arithmetic::div_mod::lemma_mod_sub_multiples_vanish((p + q) as int, m);
        }
        assert(n == hash_mix(a, b));
    }
    (n ^ (n >> 15)) % 100
}

/// The atlas tile that texture `texture_id` shows on a tile with hash `hash`.
pub fn variant_texture_id(texture_id: usize, hash: u32) -> (id: usize)
    ensures
        id == spec_variant_texture_id(texture_id, hash),
{
    if texture_id == 110 {
        if hash < 50 {
            110
        } else if hash < 75 {
            109
        } else {
            108
        }
    } else if texture_id == 143 {
        if hash < 50 {
            143
        } else {
            139
        }
    } else if texture_id == 142 {
        if hash < 50 {
            142
        } else {
            139
        }
    } else if texture_id == 81 {
        if hash < 50 {
            81
        } else if hash < 75 {
            82
        } else {
            80
        }
    } else {
        texture_id
    }
}

/// Clamps the requested window to the grid; `None` when nothing is drawn.
pub fn visible_tile_range<W: Copy>(
    grid: &TerrainGrid<W>,
    start_x: usize,
    end_x: usize,
    start_y: usize,
    end_y: usize,
) -> (r: Option<TileRange>)
    requires
        grid@.wf(),
    ensures
        r == spec_visible_tile_range(grid@, start_x, end_x, start_y, end_y),
{
    if grid.width < 2 || grid.height < 2 || grid.heights.len() == 0 {
        return None;
    }
    let last_x = grid.width - 1;
    let last_y = grid.height - 1;
    let sx = if start_x < last_x { start_x } else { last_x };
    let ex = if end_x < last_x { end_x } else { last_x };
    let sy = if start_y < last_y { start_y } else { last_y };
    let ey = if end_y < last_y { end_y } else { last_y };
    if sx >= ex || sy >= ey {
        None
    } else {
        Some(TileRange { start_x: sx, end_x: ex, start_y: sy, end_y: ey })
    }
}

/// The quad of tile `(x, y)` for texture `texture_id`.
pub fn tile_quad<W: Copy>(grid: &TerrainGrid<W>, x: usize, y: usize, texture_id: usize) -> (q: TileQuad)
    requires
        grid@.wf(),
        x < grid.width,
        y < grid.height,
    ensures
        q == tile_quad_at(grid@, x, y, texture_id),
{
    let top = match grid.get_height(x, y) {
        Some(h) => h,
        None => 0,
    };
    let right = match grid.get_height(x + 1, y) {
        Some(h) => h,
        None => top,
    };
    let bottom = match grid.get_height(x + 1, y + 1) {
        Some(h) => h,
        None => top,
    };
    let left = match grid.get_height(x, y + 1) {
        Some(h) => h,
        None => top,
    };
    let id = variant_texture_id(texture_id, tile_hash(x, y));
    TileQuad {
        x,
        y,
        h_top: top,
        h_right: right,
        h_bottom: bottom,
        h_left: left,
        atlas_col: id % ATLAS_COLUMNS,
        atlas_row: id / ATLAS_COLUMNS,
    }
}

/// The quads of one layer of the window `r`, row by row.
pub fn plan_terrain_layer<W: Copy>(grid: &TerrainGrid<W>, r: TileRange, texture_id: usize) -> (plan: Vec<TileQuad>)
    requires
        grid@.wf(),
        r.start_x < r.end_x < grid.width,
        r.start_y < r.end_y < grid.height,
    ensures
        plan@ == planned_tiles(grid@, r, texture_id),
{
    let ghost target = planned_tiles(grid@, r, texture_id);
    let ghost cols = range_cols(r);
    proof {
        lemma_row_major_bounds(0, range_rows(r) - 1, cols, range_rows(r));
    }
    let mut plan: Vec<TileQuad> = Vec::new();
    let mut y = r.start_y;
    while y < r.end_y
        invariant
            grid@.wf(),
            r.start_x < r.end_x < grid.width,
            r.start_y < r.end_y < grid.height,
            cols == range_cols(r),
            target == planned_tiles(grid@, r, texture_id),
            r.start_y <= y <= r.end_y,
            plan@.len() == (y - r.start_y) * cols,
            forall|i: int| 0 <= i < plan@.len() ==> plan@[i] == target[i],
        decreases r.end_y - y,
    {
        let mut x = r.start_x;
        while x < r.end_x
            invariant
                grid@.wf(),
                r.start_x < r.end_x < grid.width,
                r.start_y < r.end_y < grid.height,
                cols == range_cols(r),
                target == planned_tiles(grid@, r, texture_id),
                r.start_y <= y < r.end_y,
                r.start_x <= x <= r.end_x,
                plan@.len() == (y - r.start_y) * cols + (x - r.start_x),
                forall|i: int| 0 <= i < plan@.len() ==> plan@[i] == target[i],
            decreases r.end_x - x,
        {
            proof {
                let i = row_major(x - r.start_x, y - r.start_y, cols);
                lemma_row_major_bounds(x - r.start_x, y - r.start_y, cols, range_rows(r));
                vstd::arithmetic::div_mod::lemma_fundamental_div_mod_converse(
                    i,
                    cols,
                    y - r.start_y,
                    x - r.start_x,
                );
            }
            plan.push(tile_quad(grid, x, y, texture_id));
            x = x + 1;
        }
        proof {
            assert((y + 1 - r.start_y) * cols == (y - r.start_y) * cols + cols) by (nonlinear_arith);
        }
        y = y + 1;
    }
    assert(range_rows(r) * cols == cols * range_rows(r)) by (nonlinear_arith);
    assert(plan@ =~= target);
    plan
}

/// A batch of terrain quads: four vertices per quad and two triangles
/// (six indices into `vertices`) per quad.
pub struct TerrainRenderMesh<V> {
    pub vertices: Vec<V>,
    pub indices: Vec<u16>,
}

/// Quads per mesh: a mesh is full at `MAX_MESH_INDICES` indices, six per quad.
pub open spec fn quads_per_mesh() -> int {
    MAX_MESH_INDICES as int / 6
}

/// The quads that are drawn: the given ones, in order, without the skipped
/// (`None`) entries.
pub open spec fn kept_quads<V>(quads: Seq<Option<[V; 4]>>) -> Seq<[V; 4]>
    decreases quads.len(),
{
    if quads.len() == 0 {
        Seq::empty()
    } else {
        let rest = kept_quads(quads.drop_last());
        match quads.last() {
            Some(q) => rest.push(q),
            None => rest,
        }
    }
}

/// The vertex list of a run of quads: their four corners one after another.
pub open spec fn quad_vertices<V>(quads: Seq<[V; 4]>) -> Seq<V> {
    Seq::new(4 * quads.len(), |i: int| quads[i / 4]@[i % 4])
}

/// Corner (0..4) of the quad that index `k` (0..6) of its two triangles uses:
/// triangles (0, 1, 2) and (0, 2, 3).
pub open spec fn triangle_corner(k: int) -> int {
    if k == 0 || k == 3 {
        0
    } else if k == 1 {
        1
    } else if k == 2 || k == 4 {
        2
    } else {
        3
    }
}

/// The index list of `n` quads whose vertices lie four by four.
pub open spec fn quad_indices(n: nat) -> Seq<u16> {
    Seq::new(6 * n, |i: int| (4 * (i / 6) + triangle_corner(i % 6)) as u16)
}

/// Number of meshes that `n` quads fill: `n / quads_per_mesh()`, rounded up.
pub open spec fn mesh_count(n: nat) -> nat {
    ((n + quads_per_mesh() - 1) / quads_per_mesh()) as nat
}

/// The quads of mesh `j`: the `j`-th run of `quads_per_mesh()` quads, the
/// last run possibly shorter.
pub open spec fn mesh_quads<V>(kept: Seq<[V; 4]>, j: int) -> Seq<[V; 4]> {
    let lo = quads_per_mesh() * j;
    let hi = quads_per_mesh() * (j + 1);
    kept.subrange(lo, if hi < kept.len() { hi } else { kept.len() as int })
}

/// `meshes[start..]` holds, one mesh each, exactly the batches of `kept`.
pub open spec fn meshes_hold<V>(meshes: Seq<TerrainRenderMesh<V>>, start: int, kept: Seq<[V; 4]>) -> bool {
    &&& meshes.len() == start + mesh_count(kept.len())
    &&& batches_at(meshes, start, kept)
}

/// From position `start` on, `meshes` holds the batches of `kept`, one mesh
/// each.
pub open spec fn batches_at<V>(meshes: Seq<TerrainRenderMesh<V>>, start: int, kept: Seq<[V; 4]>) -> bool {
    &&& start + mesh_count(kept.len()) <= meshes.len()
    &&& forall|j: int|
        #![trigger meshes[start + j]]
        0 <= j < mesh_count(kept.len()) ==> {
            &&& meshes[start + j].vertices@ == quad_vertices(mesh_quads(kept, j))
            &&& meshes[start + j].indices@ == quad_indices(mesh_quads(kept, j).len())
        }
}

proof fn lemma_kept_quads_step<V>(quads: Seq<Option<[V; 4]>>, t: int)
    requires
        0 <= t < quads.len(),
    ensures
        kept_quads(quads.take(t + 1)) == match quads[t] {
            Some(q) => kept_quads(quads.take(t)).push(q),
            None => kept_quads(quads.take(t)),
        },
{
    assert(quads.take(t + 1).drop_last() =~= quads.take(t));
}

proof fn lemma_quad_vertices_push<V>(s: Seq<[V; 4]>, q: [V; 4])
    ensures
        quad_vertices(s.push(q)) =~= quad_vertices(s) + q@,
{
    let n = s.len() as int;
    assert forall|i: int| 0 <= i < 4 * (n + 1) implies #[trigger] quad_vertices(s.push(q))[i] == (
    quad_vertices(s) + q@)[i] by {
        if i < 4 * n {
            vstd::arithmetic::div_mod::lemma_fundamental_div_mod(i, 4);
            assert(i / 4 < n);
        } else {
            vstd::arithmetic::div_mod::lemma_fundamental_div_mod_converse(i, 4, n, i - 4 * n);
        }
    }
}

proof fn lemma_quad_indices_push(n: nat)
    requires
        4 * n + 3 <= u16::MAX,
    ensures
        quad_indices(n + 1) =~= quad_indices(n) + seq![
            (4 * n) as u16,
            (4 * n + 1) as u16,
            (4 * n + 2) as u16,
            (4 * n) as u16,
            (4 * n + 2) as u16,
            (4 * n + 3) as u16,
        ],
{
    assert forall|i: int| 6 * n <= i < 6 * (n + 1) implies #[trigger] quad_indices(n + 1)[i] == (
    4 * n + triangle_corner(i - 6 * n)) as u16 by {
        vstd::arithmetic::div_mod::lemma_fundamental_div_mod_converse(i, 6, n as int, i - 6 * n);
    }
}

proof fn lemma_subrange_push_stable<A>(s: Seq<A>, x: A, lo: int, hi: int)
    requires
        0 <= lo <= hi <= s.len(),
    ensures
        s.push(x).subrange(lo, hi) == s.subrange(lo, hi),
{
    assert(s.push(x).subrange(lo, hi) =~= s.subrange(lo, hi));
}

/// Packs one layer of quads into meshes appended to `meshes`: the quads
/// that are not skipped go, in order, into meshes of `quads_per_mesh()`
/// quads each, the last mesh holding the rest; a layer without quads adds
/// no mesh.
pub fn append_layer_meshes<V: Copy>(meshes: &mut Vec<TerrainRenderMesh<V>>, quads: Vec<Option<[V; 4]>>)
    ensures
        forall|i: int| 0 <= i < old(meshes)@.len() ==> final(meshes)@[i] == old(meshes)@[i],
        meshes_hold(final(meshes)@, old(meshes)@.len() as int, kept_quads(quads@)),
{
    let ghost start = old(meshes)@.len() as int;
    let ghost per = quads_per_mesh();
    let mut vertices: Vec<V> = Vec::new();
    let mut indices: Vec<u16> = Vec::new();
    let ghost mut done: int = 0;
    let n = quads.len();
    let mut t: usize = 0;
    assert(quads@.take(0) =~= Seq::<Option<[V; 4]>>::empty());
    while t < n
        invariant
            n == quads@.len(),
            t <= n,
            start == old(meshes)@.len(),
            per == 500,
            forall|i: int| 0 <= i < start ==> meshes@[i] == old(meshes)@[i],
            meshes@.len() == start + done,
            0 <= done,
            ({
                let k = kept_quads(quads@.take(t as int));
                &&& per * done <= k.len() <= per * done + per
                &&& vertices@ == quad_vertices(k.subrange(per * done, k.len() as int))
                &&& indices@ == quad_indices((k.len() - per * done) as nat)
                &&& forall|j: int|
                    #![trigger meshes@[start + j]]
                    0 <= j < done ==> {
                        &&& meshes@[start + j].vertices@ == quad_vertices(k.subrange(per * j, per * j + per))
                        &&& meshes@[start + j].indices@ == quad_indices(per as nat)
                    }
            }),
        decreases n - t,
    {
        let ghost k0 = kept_quads(quads@.take(t as int));
        if indices.len() >= MAX_MESH_INDICES {
            let full = TerrainRenderMesh { vertices, indices };
            meshes.push(full);
            vertices = Vec::new();
            indices = Vec::new();
            proof {
                assert(k0.len() == per * done + per);
                done = done + 1;
                assert(k0.subrange(per * done, k0.len() as int) =~= Seq::<[V; 4]>::empty());
            }
        }
        proof {
            lemma_kept_quads_step(quads@, t as int);
        }
        match quads[t] {
            Some(q) => {
                let base = vertices.len() as u16;
                proof {
                    assert(base == 4 * (k0.len() - per * done));
                    lemma_quad_indices_push((k0.len() - per * done) as nat);
                    lemma_quad_vertices_push(k0.subrange(per * done, k0.len() as int), q);
                    assert(k0.push(q).subrange(per * done, k0.len() + 1int) =~= k0.subrange(
                        per * done,
                        k0.len() as int,
                    ).push(q));
                    assert forall|j: int| 0 <= j < done implies #[trigger] k0.push(q).subrange(
                        per * j,
                        per * j + per,
                    ) == k0.subrange(per * j, per * j + per) by {
                        lemma_subrange_push_stable(k0, q, per * j, per * j + per);
                    }
                }
                vertices.push(q[0]);
                vertices.push(q[1]);
                vertices.push(q[2]);
                vertices.push(q[3]);
                indices.push(base);
                indices.push(base + 1);
                indices.push(base + 2);
                indices.push(base);
                indices.push(base + 2);
                indices.push(base + 3);
                proof {
                    assert(q@ =~= seq![q[0], q[1], q[2], q[3]]);
                }
            },
            None => {},
        }
        t = t + 1;
    }
    assert(quads@.take(n as int) =~= quads@);
    let ghost k = kept_quads(quads@);
    if vertices.len() > 0 {
        meshes.push(TerrainRenderMesh { vertices, indices });
        proof {
            assert(mesh_count(k.len()) == done + 1);
            assert(mesh_quads(k, done) == k.subrange(per * done, k.len() as int));
        }
    } else {
        proof {
            assert(k.len() == per * done);
            assert(mesh_count(k.len()) == done);
        }
    }
    proof {
        assert forall|j: int|
            #![trigger meshes@[start + j]]
            0 <= j < mesh_count(k.len()) implies {
                &&& meshes@[start + j].vertices@ == quad_vertices(mesh_quads(k, j))
                &&& meshes@[start + j].indices@ == quad_indices(mesh_quads(k, j).len())
            } by {
            if j < done {
                assert(per * j + per <= per * done) by (nonlinear_arith)
                    requires
                        j < done,
                        per == 500,
                ;
                assert(mesh_quads(k, j) == k.subrange(per * j, per * j + per));
            }
        }
    }
}

/// The sand weights of the four corners of a tile, in the order of the
/// quad's corners: top `(x, y)`, right `(x + 1, y)`, bottom `(x + 1, y + 1)`
/// and left `(x, y + 1)`.
#[derive(Clone, Copy, Debug, PartialEq, Eq, Structural)]
pub struct SandCorners<W> {
    pub top: W,
    pub right: W,
    pub bottom: W,
    pub left: W,
}

/// The sand weights at the corners of tile `(x, y)`.
pub open spec fn tile_sand_at<W>(m: GridModel<W>, x: int, y: int) -> SandCorners<W> {
    SandCorners {
        top: m.sand_weights[m.vertex_index(x, y)],
        right: m.sand_weights[m.vertex_index(x + 1, y)],
        bottom: m.sand_weights[m.vertex_index(x + 1, y + 1)],
        left: m.sand_weights[m.vertex_index(x, y + 1)],
    }
}

/// What a layer hands `make_quad` beside the quad: nothing in the base
/// layer, the quad's corner sand weights in the sand layer.
pub open spec fn layer_sand<W>(m: GridModel<W>, q: TileQuad, sand_layer: bool) -> Option<SandCorners<W>> {
    if sand_layer {
        Some(tile_sand_at(m, q.x as int, q.y as int))
    } else {
        None
    }
}

/// The corner sand weights of tile `(x, y)` of the grid.
pub fn tile_sand_corners<W: Copy>(grid: &TerrainGrid<W>, x: usize, y: usize) -> (c: SandCorners<W>)
    requires
        grid@.wf(),
        x < grid.width,
        y < grid.height,
    ensures
        c == tile_sand_at(grid@, x as int, y as int),
{
    proof {
        lemma_row_major_bounds(x + 1, y + 1, grid.width + 1int, grid.height + 1int);
        lemma_row_major_bounds(x as int, y + 1, grid.width + 1int, grid.height + 1int);
        lemma_row_major_bounds(x + 1, y as int, grid.width + 1int, grid.height + 1int);
        lemma_row_major_bounds(x as int, y as int, grid.width + 1int, grid.height + 1int);
    }
    let row = grid.width + 1;
    SandCorners {
        top: grid.sand_weights[y * row + x],
        right: grid.sand_weights[y * row + x + 1],
        bottom: grid.sand_weights[(y + 1) * row + x + 1],
        left: grid.sand_weights[(y + 1) * row + x],
    }
}

/// Tile `i` of a layer's plan lies in the window.
pub proof fn lemma_planned_tile_in_window<W>(m: GridModel<W>, r: TileRange, texture_id: usize, i: int)
    requires
        r.start_x < r.end_x,
        r.start_y < r.end_y,
        0 <= i < planned_tiles(m, r, texture_id).len(),
    ensures
        r.start_x <= planned_tiles(m, r, texture_id)[i].x < r.end_x,
        r.start_y <= planned_tiles(m, r, texture_id)[i].y < r.end_y,
{
    let cols = range_cols(r);
    vstd::arithmetic::div_mod::lemma_fundamental_div_mod(i, cols);
    vstd::arithmetic::div_mod::lemma_mod_bound(i, cols);
    assert(i / cols < range_rows(r)) by (nonlinear_arith)
        requires
            0 <= i < cols * range_rows(r),
            i == cols * (i / cols) + i % cols,
            0 <= i % cols < cols,
    ;
    assert(i / cols >= 0) by (nonlinear_arith)
        requires
            0 <= i,
            cols > 0,
    ;
}

/// `quads` is what `make_quad` may return, tile by tile, for the quads of
/// `plan` drawn in the layer `sand_layer` of the grid `m`.
pub open spec fn quads_made<W, V, F: Fn(TileQuad, Option<SandCorners<W>>) -> Option<[V; 4]>>(
    make_quad: F,
    m: GridModel<W>,
    plan: Seq<TileQuad>,
    sand_layer: bool,
    quads: Seq<Option<[V; 4]>>,
) -> bool {
    &&& quads.len() == plan.len()
    &&& forall|i: int|
        0 <= i < plan.len() ==> call_ensures(
            make_quad,
            (plan[i], layer_sand(m, plan[i], sand_layer)),
            #[trigger] quads[i],
        )
}

/// Builds the quads of one layer of the window `r` and packs them into
/// meshes appended to `meshes`.
fn build_layer<W: Copy, V: Copy, F: Fn(TileQuad, Option<SandCorners<W>>) -> Option<[V; 4]>>(
    meshes: &mut Vec<TerrainRenderMesh<V>>,
    grid: &TerrainGrid<W>,
    r: TileRange,
    texture_id: usize,
    sand_layer: bool,
    make_quad: &F,
) -> (made: Ghost<Seq<Option<[V; 4]>>>)
    requires
        grid@.wf(),
        r.start_x < r.end_x < grid.width,
        r.start_y < r.end_y < grid.height,
        forall|q: TileQuad, s: Option<SandCorners<W>>| make_quad.requires((q, s)),
    ensures
        quads_made(*make_quad, grid@, planned_tiles(grid@, r, texture_id), sand_layer, made@),
        forall|i: int| 0 <= i < old(meshes)@.len() ==> final(meshes)@[i] == old(meshes)@[i],
        meshes_hold(final(meshes)@, old(meshes)@.len() as int, kept_quads(made@)),
{
    let plan = plan_terrain_layer(grid, r, texture_id);
    let mut quads: Vec<Option<[V; 4]>> = Vec::new();
    let mut i: usize = 0;
    while i < plan.len()
        invariant
            grid@.wf(),
            r.start_x < r.end_x < grid.width,
            r.start_y < r.end_y < grid.height,
            plan@ == planned_tiles(grid@, r, texture_id),
            forall|q: TileQuad, s: Option<SandCorners<W>>| make_quad.requires((q, s)),
            i <= plan@.len(),
            quads@.len() == i,
            forall|j: int|
                0 <= j < i ==> call_ensures(
                    *make_quad,
                    (plan@[j], layer_sand(grid@, plan@[j], sand_layer)),
                    #[trigger] quads@[j],
                ),
        decreases plan@.len() - i,
    {
        let tile = plan[i];
        proof {
            lemma_planned_tile_in_window(grid@, r, texture_id, i as int);
        }
        let sand = if sand_layer {
            Some(tile_sand_corners(grid, tile.x, tile.y))
        } else {
            None
        };
        let quad = make_quad(tile, sand);
        quads.push(quad);
        i = i + 1;
    }
    let ghost made = quads@;
    append_layer_meshes(meshes, quads);
    Ghost(made)
}

/// When no quad is skipped, every quad is kept, in order.
pub proof fn lemma_kept_quads_all<V>(quads: Seq<Option<[V; 4]>>)
    requires
        forall|i: int| 0 <= i < quads.len() ==> #[trigger] quads[i] is Some,
    ensures
        kept_quads(quads).len() == quads.len(),
        forall|i: int| 0 <= i < quads.len() ==> kept_quads(quads)[i] == quads[i]->0,
    decreases quads.len(),
{
    if quads.len() > 0 {
        let rest = quads.drop_last();
        assert forall|i: int| 0 <= i < rest.len() implies #[trigger] rest[i] is Some by {
            assert(rest[i] == quads[i]);
        }
        lemma_kept_quads_all(rest);
        assert(quads.last() is Some);
    }
}

/// Generates the terrain meshes of the window `start_x..end_x` by
/// `start_y..end_y` (clamped to the grid): first the base layer, textured
/// with `base_tex_id`, then the sand layer, textured with `brush_tex_id`.
/// `make_quad` turns a tile's quad into its four vertices, or skips it
/// (`None`); in the sand layer it is also handed the sand weights of the
/// quad's corners. It may skip only in the sand layer: the base layer holds one
/// quad per tile of the window. Each layer's kept quads are packed into
/// meshes of `quads_per_mesh()` quads, so a non-empty window always gives
/// meshes.
pub fn generate_terrain_meshes<W: Copy, V: Copy, F: Fn(TileQuad, Option<SandCorners<W>>) -> Option<[V; 4]>>(
    grid: &TerrainGrid<W>,
    start_x: usize,
    end_x: usize,
    start_y: usize,
    end_y: usize,
    base_tex_id: u8,
    brush_tex_id: u8,
    make_quad: F,
) -> (meshes: Vec<TerrainRenderMesh<V>>)
    requires
        grid@.wf(),
        forall|q: TileQuad, s: Option<SandCorners<W>>| make_quad.requires((q, s)),
        forall|q: TileQuad, v: Option<[V; 4]>| call_ensures(make_quad, (q, None::<SandCorners<W>>), v) ==> v is Some,
    ensures
        match spec_visible_tile_range(grid@, start_x, end_x, start_y, end_y) {
            None => meshes@.len() == 0,
            Some(r) => meshes@.len() > 0 && exists|base: Seq<Option<[V; 4]>>, sand: Seq<Option<[V; 4]>>|
                #![trigger quads_made(make_quad, grid@, planned_tiles(grid@, r, base_tex_id as usize), false, base),
                    quads_made(make_quad, grid@, planned_tiles(grid@, r, brush_tex_id as usize), true, sand)]
                {
                    &&& quads_made(make_quad, grid@, planned_tiles(grid@, r, base_tex_id as usize), false, base)
                    &&& quads_made(make_quad, grid@, planned_tiles(grid@, r, brush_tex_id as usize), true, sand)
                    &&& forall|i: int| 0 <= i < base.len() ==> #[trigger] base[i] is Some
                    &&& kept_quads(base).len() == planned_tiles(grid@, r, base_tex_id as usize).len()
                    &&& meshes@.len() == mesh_count(kept_quads(base).len()) + mesh_count(kept_quads(sand).len())
                    &&& batches_at(meshes@, 0, kept_quads(base))
                    &&& batches_at(meshes@, mesh_count(kept_quads(base).len()) as int, kept_quads(sand))
                },
        },
{
    let mut meshes: Vec<TerrainRenderMesh<V>> = Vec::new();
    let range = visible_tile_range(grid, start_x, end_x, start_y, end_y);
    match range {
        None => meshes,
        Some(r) => {
            let base = build_layer(&mut meshes, grid, r, base_tex_id as usize, false, &make_quad);
            let ghost mid = meshes@;
            let sand = build_layer(&mut meshes, grid, r, brush_tex_id as usize, true, &make_quad);
            proof {
                let kb = kept_quads(base@);
                assert forall|j: int|
                    #![trigger meshes@[0 + j]]
                    0 <= j < mesh_count(kb.len()) implies {
                        &&& meshes@[0 + j].vertices@ == quad_vertices(mesh_quads(kb, j))
                        &&& meshes@[0 + j].indices@ == quad_indices(mesh_quads(kb, j).len())
                    } by {
                    assert(mid[0 + j] == meshes@[0 + j]);
                }
                assert(quads_made(make_quad, grid@, planned_tiles(grid@, r, base_tex_id as usize), false, base@));
                let plan = planned_tiles(grid@, r, base_tex_id as usize);
                assert forall|i: int| 0 <= i < base@.len() implies #[trigger] base@[i] is Some by {
                    assert(call_ensures(make_quad, (plan[i], None::<SandCorners<W>>), base@[i]));
                }
                lemma_kept_quads_all(base@);
                assert(range_cols(r) * range_rows(r) >= 1) by (nonlinear_arith)
                    requires
                        range_cols(r) >= 1,
                        range_rows(r) >= 1,
                ;
                vstd::arithmetic::div_mod::lemma_fundamental_div_mod(kb.len() + 499int, 500);
                assert(quads_made(make_quad, grid@, planned_tiles(grid@, r, brush_tex_id as usize), true, sand@));
            }
            meshes
        },
    }
}

/// Every mesh of a layer holds between one and `quads_per_mesh()` quads, at
/// most `MAX_MESH_INDICES` indices, and every index names one of the mesh's
/// own vertices.
pub proof fn lemma_mesh_indices_in_range<V>(kept: Seq<[V; 4]>, j: int, i: int)
    requires
        0 <= j < mesh_count(kept.len()),
        0 <= i < quad_indices(mesh_quads(kept, j).len()).len(),
    ensures
        1 <= mesh_quads(kept, j).len() <= quads_per_mesh(),
        quad_indices(mesh_quads(kept, j).len()).len() <= MAX_MESH_INDICES,
        quad_indices(mesh_quads(kept, j).len())[i] < quad_vertices(mesh_quads(kept, j)).len(),
{
    let n = mesh_quads(kept, j).len();
    vstd::arithmetic::div_mod::lemma_fundamental_div_mod(kept.len() + 499int, 500);
    assert(500 * j < kept.len());
    vstd::arithmetic::div_mod::lemma_fundamental_div_mod(i, 6);
    assert(i / 6 < n) by (nonlinear_arith)
        requires
            0 <= i < 6 * n,
            i == 6 * (i / 6) + i % 6,
            0 <= i % 6 < 6,
    ;
}

/// Every kept quad lands in exactly one mesh: quad `q` is quad
/// `q % quads_per_mesh()` of mesh `q / quads_per_mesh()`.
pub proof fn lemma_quad_in_mesh<V>(kept: Seq<[V; 4]>, q: int)
    requires
        0 <= q < kept.len(),
    ensures
        q / quads_per_mesh() < mesh_count(kept.len()),
        q % quads_per_mesh() < mesh_quads(kept, q / quads_per_mesh()).len(),
        mesh_quads(kept, q / quads_per_mesh())[q % quads_per_mesh()] == kept[q],
{
    vstd::arithmetic::div_mod::lemma_fundamental_div_mod(q, 500);
    vstd::arithmetic::div_mod::lemma_fundamental_div_mod(kept.len() + 499int, 500);
}

/// Inside the visible window every tile and its right, bottom and bottom
/// right neighbours lie in the grid, so every corner of every quad takes a
/// real tile height.
pub proof fn lemma_visible_corners_in_grid<W>(
    m: GridModel<W>,
    start_x: usize,
    end_x: usize,
    start_y: usize,
    end_y: usize,
    texture_id: usize,
    i: int,
)
    requires
        m.wf(),
        spec_visible_tile_range(m, start_x, end_x, start_y, end_y) is Some,
    ensures
        ({
            let r = spec_visible_tile_range(m, start_x, end_x, start_y, end_y).unwrap();
            let plan = planned_tiles(m, r, texture_id);
            &&& r.start_x < r.end_x < m.width
            &&& r.start_y < r.end_y < m.height
            &&& 0 <= i < plan.len() ==> {
                let t = plan[i];
                &&& m.height_at(t.x as int, t.y as int) == Some(t.h_top)
                &&& m.height_at(t.x + 1, t.y as int) == Some(t.h_right)
                &&& m.height_at(t.x + 1, t.y + 1) == Some(t.h_bottom)
                &&& m.height_at(t.x as int, t.y + 1) == Some(t.h_left)
            }
        }),
{
    let r = spec_visible_tile_range(m, start_x, end_x, start_y, end_y).unwrap();
    let cols = range_cols(r);
    if 0 <= i < planned_tiles(m, r, texture_id).len() {
        vstd::arithmetic::div_mod::lemma_fundamental_div_mod(i, cols);
        assert(i / cols < range_rows(r)) by (nonlinear_arith)
            requires
                0 <= i < cols * range_rows(r),
                i == cols * (i / cols) + i % cols,
                0 <= i % cols < cols,
        ;
    }
}

/// The texture variation only ever picks a member of the texture's family:
/// a hash below 50 keeps the texture id itself; 110 and 81 share the rest
/// equally between 109 and 108, and 82 and 80; 143 and 142 give 139.
pub proof fn lemma_variant_family(texture_id: usize, hash: u32)
    ensures
        hash < 50 ==> spec_variant_texture_id(texture_id, hash) == texture_id,
        texture_id == 110 && 50 <= hash < 75 ==> spec_variant_texture_id(texture_id, hash) == 109,
        texture_id == 110 && 75 <= hash ==> spec_variant_texture_id(texture_id, hash) == 108,
        (texture_id == 143 || texture_id == 142) && 50 <= hash ==> spec_variant_texture_id(texture_id, hash)
            == 139,
        texture_id == 81 && 50 <= hash < 75 ==> spec_variant_texture_id(texture_id, hash) == 82,
        texture_id == 81 && 75 <= hash ==> spec_variant_texture_id(texture_id, hash) == 80,
        texture_id == 110 ==> spec_variant_texture_id(texture_id, hash) == 110
            || spec_variant_texture_id(texture_id, hash) == 109
            || spec_variant_texture_id(texture_id, hash) == 108,
        texture_id == 143 || texture_id == 142 ==> spec_variant_texture_id(texture_id, hash)
            == texture_id || spec_variant_texture_id(texture_id, hash) == 139,
        texture_id == 81 ==> spec_variant_texture_id(texture_id, hash) == 81
            || spec_variant_texture_id(texture_id, hash) == 82
            || spec_variant_texture_id(texture_id, hash) == 80,
        texture_id != 110 && texture_id != 143 && texture_id != 142 && texture_id != 81
            ==> spec_variant_texture_id(texture_id, hash) == texture_id,
{
}


/// The drawn window is the requested one with each bound cut down to the
/// last tile index of its axis; nothing is drawn exactly when the grid is
/// narrower or shorter than two tiles or the cut window is empty.
pub proof fn lemma_visible_range_clamps<W>(
    m: GridModel<W>,
    start_x: usize,
    end_x: usize,
    start_y: usize,
    end_y: usize,
)
    requires
        m.wf(),
    ensures
        ({
            let r = spec_visible_tile_range(m, start_x, end_x, start_y, end_y);
            let lx = m.width - 1;
            let ly = m.height - 1;
            &&& r is None <==> (m.width < 2 || m.height < 2
                || vstd::math::min(start_x as int, lx) >= vstd::math::min(end_x as int, lx)
                || vstd::math::min(start_y as int, ly) >= vstd::math::min(end_y as int, ly))
            &&& r is Some ==> {
                &&& r->0.start_x == vstd::math::min(start_x as int, lx)
                &&& r->0.end_x == vstd::math::min(end_x as int, lx)
                &&& r->0.start_y == vstd::math::min(start_y as int, ly)
                &&& r->0.end_y == vstd::math::min(end_y as int, ly)
            }
        }),
{
    lemma_row_major_bounds(0, 0, m.width + 1int, m.height + 1int);
    assert(m.height + 1 <= (m.width + 1) * (m.height + 1)) by (nonlinear_arith);
    if m.width >= 2 && m.height >= 2 {
        assert(m.width * m.height >= 4) by (nonlinear_arith)
            requires
                m.width >= 2,
                m.height >= 2,
        ;
    }
}

/// A tile's quad names the tile, its atlas cell is that of the tile's
/// texture variant (four cells per atlas row), and its corners read the
/// heights of the tile and of its right, lower right and lower neighbours,
/// falling back to the tile's own height past the grid's edge.
pub proof fn lemma_tile_quad_contents<W>(m: GridModel<W>, x: usize, y: usize, texture_id: usize)
    requires
        m.wf(),
        x < m.width,
        y < m.height,
    ensures
        ({
            let q = tile_quad_at(m, x, y, texture_id);
            let w = m.width as int;
            &&& q.x == x && q.y == y
            &&& q.atlas_col < 4
            &&& q.atlas_row * 4 + q.atlas_col == spec_variant_texture_id(texture_id, spec_tile_hash(x, y))
            &&& q.h_top == m.heights[y * w + x]
            &&& q.h_right == (if x + 1 < w { m.heights[y * w + x + 1] } else { q.h_top })
            &&& q.h_bottom == (if x + 1 < w && y + 1 < m.height { m.heights[(y + 1) * w + x + 1] } else { q.h_top })
            &&& q.h_left == (if y + 1 < m.height { m.heights[(y + 1) * w + x] } else { q.h_top })
        }),
{
    let id = spec_variant_texture_id(texture_id, spec_tile_hash(x, y));
    vstd::arithmetic::div_mod::lemma_fundamental_div_mod(id as int, 4);
    vstd::arithmetic::div_mod::lemma_mod_bound(id as int, 4);
    assert((y + 1) * m.width == y * m.width + m.width) by (nonlinear_arith);
}

/// The plan of a layer lists the window's tiles row by row: tile `(x, y)`
/// of the window is entry `(y - start_y) * columns + (x - start_x)`.
pub proof fn lemma_plan_row_order<W>(m: GridModel<W>, r: TileRange, texture_id: usize, x: int, y: int)
    requires
        r.start_x <= x < r.end_x,
        r.start_y <= y < r.end_y,
    ensures
        ({
            let i = (y - r.start_y) * (r.end_x - r.start_x) + (x - r.start_x);
            let plan = planned_tiles(m, r, texture_id);
            &&& 0 <= i < plan.len()
            &&& plan[i].x == x
            &&& plan[i].y == y
        }),
{
    let cols = range_cols(r);
    lemma_row_major_bounds(x - r.start_x, y - r.start_y, cols, range_rows(r));
    let i = row_major(x - r.start_x, y - r.start_y, cols);
    vstd::arithmetic::div_mod::lemma_fundamental_div_mod_converse(i, cols, y - r.start_y, x - r.start_x);
}

/// Meshes hold 500 quads each, the last one the remaining 1 to 500; there are
/// just enough of them; each quad's six indices draw triangles (0, 1, 2) and
/// (0, 2, 3) of its own four vertices.
pub proof fn lemma_mesh_batching<V>(kept: Seq<[V; 4]>, j: int, q: int)
    ensures
        quads_per_mesh() == 500,
        MAX_MESH_INDICES == 3000,
        kept.len() > 0 ==> mesh_count(kept.len()) * 500 >= kept.len() && (mesh_count(kept.len()) - 1) * 500
            < kept.len(),
        kept.len() == 0 ==> mesh_count(kept.len()) == 0,
        0 <= j && (j + 1) * 500 <= kept.len() ==> mesh_quads(kept, j) == kept.subrange(500 * j, 500 * j + 500),
        0 <= j && 500 * j < kept.len() < (j + 1) * 500 ==> mesh_quads(kept, j) == kept.subrange(500 * j, kept.len() as int),
        0 <= q && 6 * q + 5 < 6 * 500 ==> {
            let ix = quad_indices(500);
            &&& ix[6 * q] == 4 * q
            &&& ix[6 * q + 1] == 4 * q + 1
            &&& ix[6 * q + 2] == 4 * q + 2
            &&& ix[6 * q + 3] == 4 * q
            &&& ix[6 * q + 4] == 4 * q + 2
            &&& ix[6 * q + 5] == 4 * q + 3
        },
{
    vstd::arithmetic::div_mod::lemma_fundamental_div_mod(kept.len() + 499int, 500);
    if 0 <= q && 6 * q + 5 < 6 * 500 {
        vstd::arithmetic::div_mod::lemma_fundamental_div_mod_converse(6 * q + 0, 6, q, 0);
        vstd::arithmetic::div_mod::lemma_fundamental_div_mod_converse(6 * q + 1, 6, q, 1);
        vstd::arithmetic::div_mod::lemma_fundamental_div_mod_converse(6 * q + 2, 6, q, 2);
        vstd::arithmetic::div_mod::lemma_fundamental_div_mod_converse(6 * q + 3, 6, q, 3);
        vstd::arithmetic::div_mod::lemma_fundamental_div_mod_converse(6 * q + 4, 6, q, 4);
        vstd::arithmetic::div_mod::lemma_fundamental_div_mod_converse(6 * q + 5, 6, q, 5);
        assert((6 * q) / 6 == q && (6 * q) % 6 == 0);
        assert((6 * q + 1) / 6 == q && (6 * q + 1) % 6 == 1);
        assert((6 * q + 2) / 6 == q && (6 * q + 2) % 6 == 2);
        assert((6 * q + 3) / 6 == q && (6 * q + 3) % 6 == 3);
        assert((6 * q + 4) / 6 == q && (6 * q + 4) % 6 == 4);
        assert((6 * q + 5) / 6 == q && (6 * q + 5) % 6 == 5);
    }
}


/// The sand corners of tile `(x, y)` are the weights of vertices `(x, y)`,
/// `(x + 1, y)`, `(x + 1, y + 1)` and `(x, y + 1)`, read row by row from the
/// sand layer (rows of `width + 1` vertices).
pub proof fn lemma_sand_corners_layout<W>(m: GridModel<W>, x: int, y: int)
    ensures
        ({
            let c = tile_sand_at(m, x, y);
            let row = m.width + 1;
            &&& c.top == m.sand_weights[y * row + x]
            &&& c.right == m.sand_weights[y * row + x + 1]
            &&& c.bottom == m.sand_weights[(y + 1) * row + x + 1]
            &&& c.left == m.sand_weights[(y + 1) * row + x]
        }),
{
}


/// A run of quads lays out its vertices four by four: corner `k` of quad `q`
/// is vertex `4 * q + k`.
pub proof fn lemma_quad_vertices_layout<V>(quads: Seq<[V; 4]>, q: int, k: int)
    requires
        0 <= q < quads.len(),
        0 <= k < 4,
    ensures
        quad_vertices(quads).len() == 4 * quads.len(),
        quad_vertices(quads)[4 * q + k] == quads[q]@[k],
{
    vstd::arithmetic::div_mod::lemma_fundamental_div_mod_converse(4 * q + k, 4, q, k);
}

} // verus!
