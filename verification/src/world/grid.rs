//! A rectangular terrain grid of `width * height` tiles, stored row by row.
//! Tiles carry a height and a passability flag; the `(width + 1) * (height + 1)`
//! tile corners (vertices) carry a sand weight.

use vstd::prelude::*;

verus! {

/// Row-major index of `(x, y)` in a grid whose rows are `w` long.
pub open spec fn row_major(x: int, y: int, w: int) -> int {
    y * w + x
}

/// An in-range coordinate pair has an in-range row-major index.
pub proof fn lemma_row_major_bounds(x: int, y: int, w: int, h: int)
    requires
        0 <= x < w,
        0 <= y < h,
    ensures
        0 <= y * w <= row_major(x, y, w) < w * h,
        w * h < (w + 1) * (h + 1),
        w <= w * h,
{
    assert(0 <= y * w <= y * w + x < w * h < (w + 1) * (h + 1) && w <= w * h) by (nonlinear_arith)
        requires
            0 <= x < w,
            0 <= y < h,
    ;
}

/// Two in-range coordinate pairs with the same row-major index are equal.
pub proof fn lemma_row_major_injective(x1: int, y1: int, x2: int, y2: int, w: int)
    requires
        0 <= x1 < w,
        0 <= x2 < w,
        0 <= y1,
        0 <= y2,
        row_major(x1, y1, w) == row_major(x2, y2, w),
    ensures
        x1 == x2,
        y1 == y2,
{
    assert(y1 == y2) by (nonlinear_arith)
        requires
            0 <= x1 < w,
            0 <= x2 < w,
            0 <= y1,
            0 <= y2,
            y1 * w + x1 == y2 * w + x2,
    ;
}

/// The mathematical content of a terrain grid.
pub struct GridModel<W> {
    pub width: nat,
    pub height: nat,
    pub heights: Seq<u8>,
    pub sand_weights: Seq<W>,
    pub is_passable: Seq<bool>,
}

impl<W> GridModel<W> {
    /// The three layers have the sizes that the dimensions prescribe, and the
    /// vertex layer fits in an allocation.
    pub open spec fn wf(self) -> bool {
        &&& self.heights.len() == self.width * self.height
        &&& self.is_passable.len() == self.width * self.height
        &&& self.sand_weights.len() == (self.width + 1) * (self.height + 1)
        &&& (self.width + 1) * (self.height + 1) <= isize::MAX
    }

    pub open spec fn in_tiles(self, x: int, y: int) -> bool {
        0 <= x < self.width && 0 <= y < self.height
    }

    pub open spec fn in_vertices(self, vx: int, vy: int) -> bool {
        0 <= vx <= self.width && 0 <= vy <= self.height
    }

    pub open spec fn tile_index(self, x: int, y: int) -> int {
        row_major(x, y, self.width as int)
    }

    pub open spec fn vertex_index(self, vx: int, vy: int) -> int {
        row_major(vx, vy, self.width + 1int)
    }

    /// Height of tile `(x, y)`, `None` outside the grid.
    pub open spec fn height_at(self, x: int, y: int) -> Option<u8> {
        if self.in_tiles(x, y) {
            Some(self.heights[self.tile_index(x, y)])
        } else {
            None
        }
    }

    /// Passability of tile `(x, y)`, `None` outside the grid.
    pub open spec fn passable_at(self, x: int, y: int) -> Option<bool> {
        if self.in_tiles(x, y) {
            Some(self.is_passable[self.tile_index(x, y)])
        } else {
            None
        }
    }

    /// Sand weight of vertex `(vx, vy)`, `None` outside the grid.
    pub open spec fn sand_weight_at(self, vx: int, vy: int) -> Option<W> {
        if self.in_vertices(vx, vy) {
            Some(self.sand_weights[self.vertex_index(vx, vy)])
        } else {
            None
        }
    }

    /// The grid after writing `value` as the height of tile `(x, y)`; a write
    /// outside the grid changes nothing.
    pub open spec fn with_height(self, x: int, y: int, value: u8) -> GridModel<W> {
        if self.in_tiles(x, y) {
            GridModel { heights: self.heights.update(self.tile_index(x, y), value), ..self }
        } else {
            self
        }
    }

    /// The grid after writing `value` as the passability of tile `(x, y)`; a
    /// write outside the grid changes nothing.
    pub open spec fn with_passable(self, x: int, y: int, value: bool) -> GridModel<W> {
        if self.in_tiles(x, y) {
            GridModel { is_passable: self.is_passable.update(self.tile_index(x, y), value), ..self }
        } else {
            self
        }
    }

    /// The grid with every sand weight set to `zero`.
    pub open spec fn with_sand_cleared(self, zero: W) -> GridModel<W> {
        GridModel {
            sand_weights: Seq::new(self.sand_weights.len(), |i: int| zero),
            ..self
        }
    }
}

/// Vertex `(vx, vy)` lies in the square of half-width `radius` around
/// `(cx, cy)`, and the radius is positive.
pub open spec fn in_brush(cx: int, cy: int, radius: int, vx: int, vy: int) -> bool {
    &&& radius > 0
    &&& -radius <= vx - cx <= radius
    &&& -radius <= vy - cy <= radius
}

/// Describes the sand layer `after` that a brush pass leaves behind on the
/// sand layer `before` of the grid `m`: every vertex in the brush square
/// whose offset `(dx, dy)` from the centre satisfies `scanned` holds a value
/// that `update` may return for its old value and that offset; every other
/// vertex keeps its weight.
pub open spec fn brushed<W, F: Fn(W, isize, isize) -> W>(
    m: GridModel<W>,
    before: Seq<W>,
    after: Seq<W>,
    cx: int,
    cy: int,
    radius: int,
    update: F,
    scanned: spec_fn(int, int) -> bool,
) -> bool {
    &&& after.len() == before.len()
    &&& forall|vx: int, vy: int|
        #![trigger m.vertex_index(vx, vy)]
        m.in_vertices(vx, vy) ==> {
            let i = m.vertex_index(vx, vy);
            if in_brush(cx, cy, radius, vx, vy) && scanned(vx - cx, vy - cy) {
                call_ensures(update, (before[i], (vx - cx) as isize, (vy - cy) as isize), after[i])
            } else {
                after[i] == before[i]
            }
        }
}

/// Two scan predicates that agree on every offset of the brush square
/// describe the same brush pass.
proof fn lemma_brushed_rescan<W, F: Fn(W, isize, isize) -> W>(
    m: GridModel<W>,
    before: Seq<W>,
    after: Seq<W>,
    cx: int,
    cy: int,
    radius: int,
    update: F,
    s1: spec_fn(int, int) -> bool,
    s2: spec_fn(int, int) -> bool,
)
    requires
        brushed(m, before, after, cx, cy, radius, update, s1),
        forall|a: int, b: int| -radius <= a <= radius && -radius <= b <= radius ==> #[trigger] s1(a, b) == s2(a, b),
    ensures
        brushed(m, before, after, cx, cy, radius, update, s2),
{
    assert forall|vx: int, vy: int|
        #![trigger m.vertex_index(vx, vy)]
        m.in_vertices(vx, vy) && in_brush(cx, cy, radius, vx, vy) implies
            s1(vx - cx, vy - cy) == s2(vx - cx, vy - cy) by {}
}

/// One step of a brush pass: writing the updated weight of the vertex at
/// offset `(dx, dy)` extends the scanned region by that offset.
proof fn lemma_brush_step<W, F: Fn(W, isize, isize) -> W>(
    m: GridModel<W>,
    before: Seq<W>,
    prev: Seq<W>,
    cur: Seq<W>,
    cx: int,
    cy: int,
    radius: int,
    update: F,
    dx: int,
    dy: int,
    new_weight: W,
)
    requires
        m.wf(),
        before.len() == m.sand_weights.len(),
        m.in_vertices(cx + dx, cy + dy),
        radius > 0,
        -radius <= dx <= radius,
        -radius <= dy <= radius,
        brushed(m, before, prev, cx, cy, radius, update, |a: int, b: int| b < dy || (b == dy && a < dx)),
        cur == prev.update(m.vertex_index(cx + dx, cy + dy), new_weight),
        call_ensures(
            update,
            (prev[m.vertex_index(cx + dx, cy + dy)], dx as isize, dy as isize),
            new_weight,
        ),
    ensures
        brushed(m, before, cur, cx, cy, radius, update, |a: int, b: int| b < dy || (b == dy && a <= dx)),
{
    let k = m.vertex_index(cx + dx, cy + dy);
    lemma_row_major_bounds(cx + dx, cy + dy, m.width + 1int, m.height + 1int);
    assert(m.in_vertices(cx + dx, cy + dy));
    assert forall|vx: int, vy: int|
        #![trigger m.vertex_index(vx, vy)]
        m.in_vertices(vx, vy) implies {
            let i = m.vertex_index(vx, vy);
            if in_brush(cx, cy, radius, vx, vy) && (vy - cy < dy || (vy - cy == dy && vx - cx <= dx)) {
                call_ensures(update, (before[i], (vx - cx) as isize, (vy - cy) as isize), cur[i])
            } else {
                cur[i] == before[i]
            }
        } by {
        let i = m.vertex_index(vx, vy);
        lemma_row_major_bounds(vx, vy, m.width + 1int, m.height + 1int);
        if vx == cx + dx && vy == cy + dy {
            assert(i == k);
            assert(prev[k] == before[k]);
        } else {
            if i == k {
                lemma_row_major_injective(vx, vy, cx + dx, cy + dy, m.width + 1int);
            }
            assert(cur[i] == prev[i]);
        }
    }
}

/// A terrain grid. The sand weight type `W` is left to the caller (the game
/// uses a floating-point weight); the grid only stores and moves weights.
pub struct TerrainGrid<W> {
    pub width: usize,
    pub height: usize,
    pub heights: Vec<u8>,
    pub sand_weights: Vec<W>,
    pub is_passable: Vec<bool>,
}

impl<W> View for TerrainGrid<W> {
    type V = GridModel<W>;

    open spec fn view(&self) -> GridModel<W> {
        GridModel {
            width: self.width as nat,
            height: self.height as nat,
            heights: self.heights@,
            sand_weights: self.sand_weights@,
            is_passable: self.is_passable@,
        }
    }
}

impl<W: Copy> TerrainGrid<W> {
    /// Builds a `width` x `height` grid whose tile heights are
    /// `initial_heights` (row by row), whose tiles are all passable and whose
    /// vertices all carry `zero_weight`.
    pub fn new(width: usize, height: usize, zero_weight: W, initial_heights: Vec<u8>) -> (grid: Self)
        requires
            (width + 1) * (height + 1) <= isize::MAX,
            initial_heights@.len() == width * height,
        ensures
            grid@.wf(),
            grid@.width == width,
            grid@.height == height,
            grid@.heights == initial_heights@,
            forall|i: int| 0 <= i < grid@.is_passable.len() ==> grid@.is_passable[i],
            forall|i: int| 0 <= i < grid@.sand_weights.len() ==> grid@.sand_weights[i] == zero_weight,
    {
        assert((width + 1) * (height + 1) == width * height + width + height + 1) by (nonlinear_arith);
        let cells = width * height;
        let vertices = (width + 1) * (height + 1);
        let mut is_passable: Vec<bool> = Vec::new();
        let mut i: usize = 0;
        while i < cells
            invariant
                i <= cells,
                is_passable@.len() == i,
                forall|j: int| 0 <= j < i ==> is_passable@[j],
            decreases cells - i,
        {
            is_passable.push(true);
            i = i + 1;
        }
        let mut sand_weights: Vec<W> = Vec::new();
        let mut j: usize = 0;
        while j < vertices
            invariant
                j <= vertices,
                sand_weights@.len() == j,
                forall|k: int| 0 <= k < j ==> sand_weights@[k] == zero_weight,
            decreases vertices - j,
        {
            sand_weights.push(zero_weight);
            j = j + 1;
        }
        TerrainGrid { width, height, heights: initial_heights, sand_weights, is_passable }
    }

    /// Tells whether the grid's layers have the sizes that its dimensions
    /// prescribe (the precondition of every other method).
    pub fn is_well_formed(&self) -> (b: bool)
        ensures
            b == self@.wf(),
    {
        let w = self.width;
        let h = self.height;
        if w == usize::MAX || h == usize::MAX {
            assert((w + 1) * (h + 1) > isize::MAX) by (nonlinear_arith)
                requires
                    w == usize::MAX || h == usize::MAX,
                    usize::MAX > isize::MAX,
            ;
            return false;
        }
        let vertices = (w + 1).checked_mul(h + 1);
        match vertices {
            None => false,
            Some(n) => {
                if n > isize::MAX as usize {
                    return false;
                }
                assert(w * h <= (w + 1) * (h + 1)) by (nonlinear_arith);
                let cells = w * h;
                self.heights.len() == cells && self.is_passable.len() == cells
                    && self.sand_weights.len() == n
            },
        }
    }

    /// Row-major index of tile `(x, y)`, `None` outside the grid.
    fn index(&self, x: usize, y: usize) -> (r: Option<usize>)
        requires
            self@.wf(),
        ensures
            r is Some <==> self@.in_tiles(x as int, y as int),
            r matches Some(i) ==> i == self@.tile_index(x as int, y as int)
                && i < self.heights@.len(),
    {
        if x < self.width && y < self.height {
            proof {
                lemma_row_major_bounds(x as int, y as int, self.width as int, self.height as int);
            }
            Some(y * self.width + x)
        } else {
            None
        }
    }

    /// Height of tile `(x, y)`, `None` outside the grid.
    pub fn get_height(&self, x: usize, y: usize) -> (r: Option<u8>)
        requires
            self@.wf(),
        ensures
            r == self@.height_at(x as int, y as int),
    {
        match self.index(x, y) {
            Some(i) => Some(self.heights[i]),
            None => None,
        }
    }

    /// Writes the height of tile `(x, y)`; outside the grid nothing changes.
    pub fn set_height(&mut self, x: usize, y: usize, value: u8)
        requires
            old(self)@.wf(),
        ensures
            final(self)@ == old(self)@.with_height(x as int, y as int, value),
    {
        if let Some(i) = self.index(x, y) {
            self.heights.set(i, value);
        }
    }

    /// Passability of tile `(x, y)`, `None` outside the grid.
    pub fn get_is_passable(&self, x: usize, y: usize) -> (r: Option<bool>)
        requires
            self@.wf(),
        ensures
            r == self@.passable_at(x as int, y as int),
    {
        match self.index(x, y) {
            Some(i) => Some(self.is_passable[i]),
            None => None,
        }
    }

    /// Writes the passability of tile `(x, y)`; outside the grid nothing changes.
    pub fn set_is_passable(&mut self, x: usize, y: usize, value: bool)
        requires
            old(self)@.wf(),
        ensures
            final(self)@ == old(self)@.with_passable(x as int, y as int, value),
    {
        if let Some(i) = self.index(x, y) {
            self.is_passable.set(i, value);
        }
    }

    /// Row-major index of vertex `(vx, vy)`, `None` outside the grid.
    fn vertex_index(&self, vx: usize, vy: usize) -> (r: Option<usize>)
        requires
            self@.wf(),
        ensures
            r is Some <==> self@.in_vertices(vx as int, vy as int),
            r matches Some(i) ==> i == self@.vertex_index(vx as int, vy as int)
                && i < self.sand_weights@.len(),
    {
        proof {
            lemma_row_major_bounds(0, 0, self.width + 1, self.height + 1);
        }
        if vx <= self.width && vy <= self.height {
            proof {
                lemma_row_major_bounds(
                    vx as int,
                    vy as int,
                    self.width + 1,
                    self.height + 1,
                );
            }
            Some(vy * (self.width + 1) + vx)
        } else {
            None
        }
    }

    /// Sand weight of vertex `(vx, vy)`, `outside` outside the grid.
    pub fn get_sand_weight(&self, vx: usize, vy: usize, outside: W) -> (r: W)
        requires
            self@.wf(),
        ensures
            r == (match self@.sand_weight_at(vx as int, vy as int) {
                Some(w) => w,
                None => outside,
            }),
    {
        match self.vertex_index(vx, vy) {
            Some(i) => self.sand_weights[i],
            None => outside,
        }
    }

    /// Sets every sand weight to `zero`.
    pub fn clear_sand_weights(&mut self, zero: W)
        requires
            old(self)@.wf(),
        ensures
            final(self)@ == old(self)@.with_sand_cleared(zero),
    {
        let n = self.sand_weights.len();
        let mut i: usize = 0;
        while i < n
            invariant
                n == self.sand_weights@.len(),
                n == old(self).sand_weights@.len(),
                i <= n,
                self.width == old(self).width,
                self.height == old(self).height,
                self.heights@ == old(self).heights@,
                self.is_passable@ == old(self).is_passable@,
                forall|j: int| 0 <= j < i ==> self.sand_weights@[j] == zero,
            decreases n - i,
        {
            self.sand_weights.set(i, zero);
            i = i + 1;
        }
        assert(self.sand_weights@ =~= Seq::new(n as nat, |j: int| zero));
    }

    /// Runs a brush of half-width `radius` centred on vertex `(cx, cy)`, whose
    /// coordinates are taken as `isize` (so values above `isize::MAX` wrap to
    /// negative centres): every vertex of the grid in the square
    /// `cx - radius ..= cx + radius` by `cy - radius ..= cy + radius` gets the
    /// weight that `update` returns
    /// for its old weight and its offset `(dx, dy)` from the centre. Vertices
    /// are visited row by row, each at most once; a radius of zero or less
    /// changes nothing.
    pub fn add_sand_weight_in_radius<F: Fn(W, isize, isize) -> W>(
        &mut self,
        cx: usize,
        cy: usize,
        radius: isize,
        update: F,
    )
        requires
            old(self)@.wf(),
            radius > 0 ==> {
                &&& isize::MIN <= (cx as isize) - radius
                &&& (cx as isize) + radius <= isize::MAX
                &&& isize::MIN <= (cy as isize) - radius
                &&& (cy as isize) + radius <= isize::MAX
            },
            forall|w: W, dx: isize, dy: isize| update.requires((w, dx, dy)),
        ensures
            final(self)@.width == old(self)@.width,
            final(self)@.height == old(self)@.height,
            final(self)@.heights == old(self)@.heights,
            final(self)@.is_passable == old(self)@.is_passable,
            radius <= 0 ==> final(self)@ == old(self)@,
            brushed(
                old(self)@,
                old(self)@.sand_weights,
                final(self)@.sand_weights,
                (cx as isize) as int,
                (cy as isize) as int,
                radius as int,
                update,
                |dx: int, dy: int| true,
            ),
    {
        if radius <= 0 {
            return;
        }
        let ghost m = self@;
        let ghost before = self.sand_weights@;
        proof {
            lemma_row_major_bounds(0, 0, self.width + 1, self.height + 1);
            assert(self.height + 1 <= (self.width + 1) * (self.height + 1)) by (nonlinear_arith);
        }
        let center_x = #[verifier::truncate] (cx as isize);
        let center_y = #[verifier::truncate] (cy as isize);
        let max_x = self.width as isize;
        let max_y = self.height as isize;
        let mut dy: isize = -radius;
        loop
            invariant_except_break
                -radius <= dy <= radius,
                brushed(
                    m,
                    before,
                    self.sand_weights@,
                    center_x as int,
                    center_y as int,
                    radius as int,
                    update,
                    |a: int, b: int| b < dy,
                ),
            invariant
                self@.wf(),
                self.width == m.width,
                self.height == m.height,
                self.heights@ == m.heights,
                self.is_passable@ == m.is_passable,
                m.wf(),
                before == m.sand_weights,
                center_x == cx as isize,
                center_y == cy as isize,
                max_x == m.width,
                max_y == m.height,
                radius > 0,
                isize::MIN <= center_x - radius,
                center_x + radius <= isize::MAX,
                isize::MIN <= center_y - radius,
                center_y + radius <= isize::MAX,
                forall|w: W, dx: isize, dy: isize| update.requires((w, dx, dy)),
            ensures
                brushed(
                    m,
                    before,
                    self.sand_weights@,
                    center_x as int,
                    center_y as int,
                    radius as int,
                    update,
                    |a: int, b: int| true,
                ),
            decreases radius - dy,
        {
            let mut dx: isize = -radius;
            loop
                invariant_except_break
                    -radius <= dx <= radius,
                    brushed(
                        m,
                        before,
                        self.sand_weights@,
                        center_x as int,
                        center_y as int,
                        radius as int,
                        update,
                        |a: int, b: int| b < dy || (b == dy && a < dx),
                    ),
                invariant
                    self@.wf(),
                    self.width == m.width,
                    self.height == m.height,
                    self.heights@ == m.heights,
                    self.is_passable@ == m.is_passable,
                    m.wf(),
                    before == m.sand_weights,
                    center_x == cx as isize,
                    center_y == cy as isize,
                    max_x == m.width,
                    max_y == m.height,
                    -radius <= dy <= radius,
                    radius > 0,
                    isize::MIN <= center_x - radius,
                center_x + radius <= isize::MAX,
                    isize::MIN <= center_y - radius,
                center_y + radius <= isize::MAX,
                    forall|w: W, dx: isize, dy: isize| update.requires((w, dx, dy)),
                ensures
                    brushed(
                        m,
                        before,
                        self.sand_weights@,
                        center_x as int,
                        center_y as int,
                        radius as int,
                        update,
                        |a: int, b: int| b <= dy,
                    ),
                decreases radius - dx,
            {
                let ghost prev = self.sand_weights@;
                let nx = center_x + dx;
                let ny = center_y + dy;
                if !(nx < 0 || ny < 0 || nx > max_x || ny > max_y) {
                    if let Some(index) = self.vertex_index(nx as usize, ny as usize) {
                        let old_weight = self.sand_weights[index];
                        let new_weight = update(old_weight, dx, dy);
                        self.sand_weights.set(index, new_weight);
                        proof {
                            lemma_brush_step(
                                m, before, prev, self.sand_weights@, center_x as int, center_y as int,
                                radius as int, update, dx as int, dy as int, new_weight,
                            );
                        }
                    }
                } else {
                    assert(brushed(
                        m, before, self.sand_weights@, center_x as int, center_y as int, radius as int,
                        update, |a: int, b: int| b < dy || (b == dy && a <= dx),
                    )) by {
                        assert forall|vx: int, vy: int|
                            #![trigger m.vertex_index(vx, vy)]
                            m.in_vertices(vx, vy) implies (vx - center_x != dx || vy - center_y != dy) by {}
                    }
                }
                if dx == radius {
                    proof {
                        lemma_brushed_rescan(
                            m, before, self.sand_weights@, center_x as int, center_y as int, radius as int,
                            update, |a: int, b: int| b < dy || (b == dy && a <= dx),
                            |a: int, b: int| b <= dy,
                        );
                    }
                    break;
                }
                proof {
                    lemma_brushed_rescan(
                        m, before, self.sand_weights@, center_x as int, center_y as int, radius as int,
                        update, |a: int, b: int| b < dy || (b == dy && a <= dx),
                        |a: int, b: int| b < dy || (b == dy && a < dx + 1),
                    );
                }
                dx = dx + 1;
            }
            if dy == radius {
                proof {
                    lemma_brushed_rescan(
                        m, before, self.sand_weights@, center_x as int, center_y as int, radius as int,
                        update, |a: int, b: int| b <= dy, |a: int, b: int| true,
                    );
                }
                break;
            }
            proof {
                lemma_brushed_rescan(
                    m, before, self.sand_weights@, center_x as int, center_y as int, radius as int,
                    update, |a: int, b: int| b <= dy, |a: int, b: int| b < dy + 1,
                );
            }
            dy = dy + 1;
        }
    }
}

/// Reading a tile's height after writing it gives the written value; every
/// other tile keeps its height; a write outside the grid changes nothing.
pub proof fn lemma_height_read_after_write<W>(m: GridModel<W>, x: int, y: int, value: u8, qx: int, qy: int)
    requires
        m.wf(),
    ensures
        m.with_height(x, y, value).wf(),
        m.with_height(x, y, value).height_at(qx, qy) == (if qx == x && qy == y && m.in_tiles(x, y) {
            Some(value)
        } else {
            m.height_at(qx, qy)
        }),
        m.with_height(x, y, value).passable_at(qx, qy) == m.passable_at(qx, qy),
        m.with_height(x, y, value).sand_weight_at(qx, qy) == m.sand_weight_at(qx, qy),
{
    if m.in_tiles(x, y) {
        lemma_row_major_bounds(x, y, m.width as int, m.height as int);
        if m.in_tiles(qx, qy) {
            lemma_row_major_bounds(qx, qy, m.width as int, m.height as int);
            if m.tile_index(x, y) == m.tile_index(qx, qy) {
                lemma_row_major_injective(x, y, qx, qy, m.width as int);
            }
        }
    }
}

/// Reading a tile's passability after writing it gives the written value;
/// every other tile keeps its passability; a write outside the grid changes
/// nothing.
pub proof fn lemma_passable_read_after_write<W>(m: GridModel<W>, x: int, y: int, value: bool, qx: int, qy: int)
    requires
        m.wf(),
    ensures
        m.with_passable(x, y, value).wf(),
        m.with_passable(x, y, value).passable_at(qx, qy) == (if qx == x && qy == y && m.in_tiles(x, y) {
            Some(value)
        } else {
            m.passable_at(qx, qy)
        }),
        m.with_passable(x, y, value).height_at(qx, qy) == m.height_at(qx, qy),
        m.with_passable(x, y, value).sand_weight_at(qx, qy) == m.sand_weight_at(qx, qy),
{
    if m.in_tiles(x, y) {
        lemma_row_major_bounds(x, y, m.width as int, m.height as int);
        if m.in_tiles(qx, qy) {
            lemma_row_major_bounds(qx, qy, m.width as int, m.height as int);
            if m.tile_index(x, y) == m.tile_index(qx, qy) {
                lemma_row_major_injective(x, y, qx, qy, m.width as int);
            }
        }
    }
}

/// Of two height writes to the same tile the second wins.
pub proof fn lemma_height_last_write_wins<W>(m: GridModel<W>, x: int, y: int, a: u8, b: u8)
    requires
        m.wf(),
    ensures
        m.with_height(x, y, a).with_height(x, y, b) == m.with_height(x, y, b),
{
    if m.in_tiles(x, y) {
        lemma_row_major_bounds(x, y, m.width as int, m.height as int);
        assert(m.with_height(x, y, a).with_height(x, y, b).heights =~= m.with_height(x, y, b).heights);
    }
}

/// Height writes to two different tiles can be done in either order.
pub proof fn lemma_height_writes_commute<W>(m: GridModel<W>, x1: int, y1: int, a: u8, x2: int, y2: int, b: u8)
    requires
        m.wf(),
        x1 != x2 || y1 != y2,
    ensures
        m.with_height(x1, y1, a).with_height(x2, y2, b) == m.with_height(x2, y2, b).with_height(x1, y1, a),
{
    if m.in_tiles(x1, y1) && m.in_tiles(x2, y2) {
        lemma_row_major_bounds(x1, y1, m.width as int, m.height as int);
        lemma_row_major_bounds(x2, y2, m.width as int, m.height as int);
        if m.tile_index(x1, y1) == m.tile_index(x2, y2) {
            lemma_row_major_injective(x1, y1, x2, y2, m.width as int);
        }
        assert(m.with_height(x1, y1, a).with_height(x2, y2, b).heights =~= m.with_height(
            x2,
            y2,
            b,
        ).with_height(x1, y1, a).heights);
    }
}

/// After clearing, every vertex of the grid reads `zero`, and the tiles are
/// untouched.
pub proof fn lemma_sand_read_after_clear<W>(m: GridModel<W>, zero: W, vx: int, vy: int)
    requires
        m.wf(),
    ensures
        m.with_sand_cleared(zero).wf(),
        m.in_vertices(vx, vy) ==> m.with_sand_cleared(zero).sand_weight_at(vx, vy) == Some(zero),
        !m.in_vertices(vx, vy) ==> m.with_sand_cleared(zero).sand_weight_at(vx, vy) == None::<W>,
        m.with_sand_cleared(zero).height_at(vx, vy) == m.height_at(vx, vy),
        m.with_sand_cleared(zero).passable_at(vx, vy) == m.passable_at(vx, vy),
{
    if m.in_vertices(vx, vy) {
        lemma_row_major_bounds(vx, vy, m.width + 1int, m.height + 1int);
    }
}

/// A brush pass leaves every vertex outside its square, and every vertex
/// when the radius is not positive, with its old weight.
pub proof fn lemma_brush_outside_unchanged<W, F: Fn(W, isize, isize) -> W>(
    m: GridModel<W>,
    after: Seq<W>,
    cx: int,
    cy: int,
    radius: int,
    update: F,
    vx: int,
    vy: int,
)
    requires
        m.wf(),
        brushed(m, m.sand_weights, after, cx, cy, radius, update, |dx: int, dy: int| true),
        m.in_vertices(vx, vy),
        !in_brush(cx, cy, radius, vx, vy),
    ensures
        after[m.vertex_index(vx, vy)] == m.sand_weights[m.vertex_index(vx, vy)],
{
}

/// Clearing undoes all sand painting: a grid that was built by `new` with
/// zero weight `zero` and then only brushed (which keeps the dimensions, the
/// tiles and the number of vertices) is, once cleared with `zero`, the grid
/// that `new` built.
pub proof fn lemma_clear_undoes_painting<W>(fresh: GridModel<W>, painted: GridModel<W>, zero: W)
    requires
        fresh.wf(),
        forall|i: int| 0 <= i < fresh.sand_weights.len() ==> fresh.sand_weights[i] == zero,
        painted.width == fresh.width,
        painted.height == fresh.height,
        painted.heights == fresh.heights,
        painted.is_passable == fresh.is_passable,
        painted.sand_weights.len() == fresh.sand_weights.len(),
    ensures
        painted.with_sand_cleared(zero) == fresh,
{
    assert(painted.with_sand_cleared(zero).sand_weights =~= fresh.sand_weights);
}


/// The layers are stored row by row: tile `(x, y)` is entry `y * width + x`
/// of the height and passability layers, and vertex `(vx, vy)` is entry
/// `vy * (width + 1) + vx` of the sand layer; coordinates past the last
/// tile (or vertex) of a row or column read nothing.
pub proof fn lemma_grid_layout<W>(m: GridModel<W>, x: int, y: int)
    requires
        m.wf(),
    ensures
        0 <= x < m.width && 0 <= y < m.height ==> {
            &&& m.height_at(x, y) == Some(m.heights[y * m.width + x])
            &&& m.passable_at(x, y) == Some(m.is_passable[y * m.width + x])
        },
        !(0 <= x < m.width && 0 <= y < m.height) ==> m.height_at(x, y) is None && m.passable_at(x, y) is None,
        0 <= x <= m.width && 0 <= y <= m.height ==> m.sand_weight_at(x, y) == Some(
            m.sand_weights[y * (m.width + 1) + x],
        ),
        !(0 <= x <= m.width && 0 <= y <= m.height) ==> m.sand_weight_at(x, y) is None,
{
}

} // verus!
