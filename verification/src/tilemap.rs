//! The chunked tile grid: a fixed rectangle of chunks, addressed in chunk
//! units, with absolute tile coordinates translated to (chunk, local) pairs
//! by exact integer division.

use vstd::prelude::*;
use vstd::arithmetic::div_mod::{lemma_fundamental_div_mod, lemma_fundamental_div_mod_converse,
    lemma_mod_bound, lemma_multiply_divide_lt};
use vstd::arithmetic::mul::{lemma_mul_inequality, lemma_mul_is_commutative};
use crate::chunk::{chunk_cmds, chunk_outline, lemma_flat_index_in_range, Chunk, OutlineDraw,
    QuadDraw};
use crate::culling::{get_area_in_grid, grid_ceil, grid_floor, lemma_camera_bounds,
    lemma_culling_containment, lemma_grid_range_empty_beyond, lemma_grid_range_ordered,
    view_area, view_den_x, view_den_y, view_hi_x_num, view_hi_y_num, view_lo_x_num,
    view_lo_y_num, Camera};
use crate::geom::{Vec2u, COORD_BOUND};
use crate::tile::{tile_ok, Tile, TILE_WORLD_SIZE};

verus! {

/// A grid of `size.x * size.y` chunks, stored flat in row-major order
/// (chunk `(cx, cy)` at index `cx + cy * size.x`), each an `edge x edge`
/// block of tiles.
#[derive(Clone, Debug)]
pub struct TileMap {
    size: Vec2u,
    n: usize,
    chunks: Vec<Chunk>,
}

impl TileMap {
    /// Size of the map, in chunk units.
    pub closed spec fn spec_size(self) -> Vec2u {
        self.size
    }

    /// Edge length of every chunk, in tiles.
    pub closed spec fn edge(self) -> usize {
        self.n
    }

    /// The chunks, flat in row-major order.
    pub closed spec fn chunk_seq(self) -> Seq<Chunk> {
        self.chunks@
    }

    /// Edge length of one chunk, in world units.
    pub open spec fn spec_chunk_world_size(self) -> int {
        self.edge() * TILE_WORLD_SIZE
    }

    pub open spec fn wf(self) -> bool {
        &&& 1 <= self.edge()
        &&& self.edge() * self.edge() <= usize::MAX
        &&& self.spec_chunk_world_size() <= usize::MAX
        &&& self.chunk_seq().len() == self.spec_size().x * self.spec_size().y
        &&& forall|i: int|
            0 <= i < self.chunk_seq().len() ==> (#[trigger] self.chunk_seq()[i]).wf()
                && self.chunk_seq()[i].edge() == self.edge()
        &&& self.spec_size().x * self.spec_chunk_world_size() <= usize::MAX
        &&& self.spec_size().y * self.spec_chunk_world_size() <= usize::MAX
    }

    /// Flat index of chunk `(cx, cy)`.
    pub open spec fn chunk_index(self, cx: int, cy: int) -> int {
        cx + cy * self.spec_size().x
    }

    /// Whether `(tx, ty)` is an absolute tile coordinate inside the map.
    pub open spec fn valid_tile(self, tx: int, ty: int) -> bool {
        &&& 0 <= tx < self.spec_size().x * self.edge()
        &&& 0 <= ty < self.spec_size().y * self.edge()
    }

    /// The tile at absolute tile coordinate `(tx, ty)`.
    pub open spec fn tile_at(self, tx: int, ty: int) -> Tile {
        let n = self.edge() as int;
        self.chunk_seq()[self.chunk_index(tx / n, ty / n)].tile_at(tx % n, ty % n)
    }

    /// Flat index of the chunk owning absolute tile coordinate `(tx, ty)`.
    pub open spec fn chunk_of(self, tx: int, ty: int) -> int {
        self.chunk_index(tx / self.edge() as int, ty / self.edge() as int)
    }

    /// Flat index, inside its owning chunk, of the tile at absolute tile
    /// coordinate `(tx, ty)`.
    pub open spec fn local_of(self, tx: int, ty: int) -> int {
        (tx % self.edge() as int) * self.edge() + (ty % self.edge() as int)
    }

    pub fn size(&self) -> (r: Vec2u)
        ensures
            r == self.spec_size(),
    {
        self.size
    }

    pub fn edge_len(&self) -> (r: usize)
        ensures
            r == self.edge(),
    {
        self.n
    }

    /// Edge length of one chunk, in world units.
    pub fn chunk_world_size(&self) -> (r: usize)
        requires
            self.wf(),
        ensures
            r == self.spec_chunk_world_size(),
    {
        self.n * TILE_WORLD_SIZE
    }

    /// A map of `size.x * size.y` chunks of edge `n`, every tile empty.
    pub fn gen_from_size(size: Vec2u, n: usize) -> (r: TileMap)
        requires
            1 <= n,
            n * n <= usize::MAX,
            size.x * size.y <= usize::MAX,
            size.x * (n * TILE_WORLD_SIZE) <= usize::MAX,
            size.y * (n * TILE_WORLD_SIZE) <= usize::MAX,
        ensures
            r.wf(),
            r.spec_size() == size,
            r.edge() == n,
            forall|tx: int, ty: int|
                r.valid_tile(tx, ty) ==> (#[trigger] r.tile_at(tx, ty)).atlas_index == 0,
    {
        let count = size.x * size.y;
        let mut chunks: Vec<Chunk> = Vec::new();
        let mut i: usize = 0;
        while i < count
            invariant
                i <= count,
                1 <= n,
                n * n <= usize::MAX,
                chunks@.len() == i,
                forall|j: int|
                    0 <= j < i ==> (#[trigger] chunks@[j]).wf() && chunks@[j].edge() == n
                        && forall|k: int|
                        0 <= k < chunks@[j].tile_seq().len()
                            ==> chunks@[j].tile_seq()[k].atlas_index == 0,
            decreases count - i,
        {
            chunks.push(Chunk::gen_from_tile(Tile { atlas_index: 0 }, n));
            i = i + 1;
        }
        let r = TileMap { size, n, chunks };
        proof {
            assert forall|tx: int, ty: int| r.valid_tile(tx, ty) implies (#[trigger] r.tile_at(
                tx,
                ty,
            )).atlas_index == 0 by {
                lemma_tile_coords_valid(r, tx, ty);
                lemma_flat_index_in_range(tx % (n as int), ty % (n as int), n as int);
            }
        }
        r
    }

    /// Translates an absolute tile coordinate into the owning chunk's grid
    /// coordinate and the local coordinate inside that chunk: the chunk is
    /// `position / edge` and the local cell `position % edge`, exactly, and
    /// `chunk * edge + local` reconstructs `position`.
    pub fn get_chunk_coords(&self, position: Vec2u) -> (r: (Vec2u, Vec2u))
        requires
            self.wf(),
            self.valid_tile(position.x as int, position.y as int),
        ensures
            r.0.x == position.x as int / self.edge() as int,
            r.0.y == position.y as int / self.edge() as int,
            r.1.x == position.x as int % self.edge() as int,
            r.1.y == position.y as int % self.edge() as int,
            r.0.x < self.spec_size().x,
            r.0.y < self.spec_size().y,
            r.1.x < self.edge(),
            r.1.y < self.edge(),
            r.0.x * self.edge() + r.1.x == position.x,
            r.0.y * self.edge() + r.1.y == position.y,
    {
        proof {
            lemma_tile_coords_valid(*self, position.x as int, position.y as int);
        }
        (
            Vec2u { x: position.x / self.n, y: position.y / self.n },
            Vec2u { x: position.x % self.n, y: position.y % self.n },
        )
    }

    /// A shared borrow of chunk `(chunk.x, chunk.y)`.
    pub fn get_chunk(&self, chunk: Vec2u) -> (r: &Chunk)
        requires
            self.wf(),
            chunk.x < self.spec_size().x,
            chunk.y < self.spec_size().y,
        ensures
            *r == self.chunk_seq()[self.chunk_index(chunk.x as int, chunk.y as int)],
    {
        let _len = self.chunks.len();
        proof {
            lemma_grid_index_in_range(
                chunk.x as int,
                chunk.y as int,
                self.spec_size().x as int,
                self.spec_size().y as int,
            );
        }
        let index = chunk.x + chunk.y * self.size.x;
        &self.chunks[index]
    }

    /// A mutable borrow of chunk `(chunk.x, chunk.y)`.
    pub fn get_chunk_mut(&mut self, chunk: Vec2u) -> (r: &mut Chunk)
        requires
            old(self).wf(),
            chunk.x < old(self).spec_size().x,
            chunk.y < old(self).spec_size().y,
        ensures
            *r == old(self).chunk_seq()[old(self).chunk_index(
                chunk.x as int,
                chunk.y as int,
            )],
            final(self).spec_size() == old(self).spec_size(),
            final(self).edge() == old(self).edge(),
            final(self).chunk_seq() == old(self).chunk_seq().update(
                old(self).chunk_index(chunk.x as int, chunk.y as int),
                *final(r),
            ),
    {
        let _len = self.chunks.len();
        proof {
            lemma_grid_index_in_range(
                chunk.x as int,
                chunk.y as int,
                self.spec_size().x as int,
                self.spec_size().y as int,
            );
        }
        let index = chunk.x + chunk.y * self.size.x;
        &mut self.chunks[index]
    }

    /// The tile at absolute tile coordinate `position`.
    pub fn get_tile(&self, position: Vec2u) -> (t: Tile)
        requires
            self.wf(),
            self.valid_tile(position.x as int, position.y as int),
        ensures
            t == self.tile_at(position.x as int, position.y as int),
    {
        let (chunk, local) = self.get_chunk_coords(position);
        proof {
            lemma_tile_coords_valid(*self, position.x as int, position.y as int);
        }
        let c = self.get_chunk(chunk);
        c.get_local(local.x, local.y)
    }

    /// A mutable borrow of the tile at absolute tile coordinate `position`.
    /// Writing through it replaces exactly that entry of the owning chunk;
    /// every other chunk is untouched.
    pub fn get_tile_mut(&mut self, position: Vec2u) -> (t: &mut Tile)
        requires
            old(self).wf(),
            old(self).valid_tile(position.x as int, position.y as int),
        ensures
            *t == old(self).tile_at(position.x as int, position.y as int),
            final(self).spec_size() == old(self).spec_size(),
            final(self).edge() == old(self).edge(),
            final(self).chunk_seq().len() == old(self).chunk_seq().len(),
            final(self).chunk_seq()[old(self).chunk_of(position.x as int, position.y as int)].edge()
                == old(self).edge(),
            final(self).chunk_seq()[old(self).chunk_of(position.x as int, position.y as int)]
                .tile_seq() == old(self).chunk_seq()[old(self).chunk_of(
                position.x as int,
                position.y as int,
            )].tile_seq().update(
                old(self).local_of(position.x as int, position.y as int),
                *final(t),
            ),
            forall|j: int|
                0 <= j < old(self).chunk_seq().len() && j != old(self).chunk_of(
                    position.x as int,
                    position.y as int,
                ) ==> final(self).chunk_seq()[j] == old(self).chunk_seq()[j],
            tile_ok(*final(t)) ==> final(self).wf(),
    {
        proof {
            lemma_tile_coords_valid(*self, position.x as int, position.y as int);
        }
        let (chunk, local) = self.get_chunk_coords(position);
        let c = self.get_chunk_mut(chunk);
        let t = c.tile_mut(local.x, local.y);
        t
    }

    /// Overwrites the tile at absolute tile coordinate `position`; no other
    /// tile changes, and the map's shape is untouched.
    pub fn set_tile(&mut self, position: Vec2u, tile: Tile)
        requires
            old(self).wf(),
            old(self).valid_tile(position.x as int, position.y as int),
            tile_ok(tile),
        ensures
            final(self).wf(),
            final(self).spec_size() == old(self).spec_size(),
            final(self).edge() == old(self).edge(),
            final(self).tile_at(position.x as int, position.y as int) == tile,
            forall|tx: int, ty: int|
                old(self).valid_tile(tx, ty) && !(tx == position.x as int && ty
                    == position.y as int) ==> #[trigger] final(self).tile_at(tx, ty) == old(
                    self,
                ).tile_at(tx, ty),
    {
        let ghost m0 = *self;
        let t = self.get_tile_mut(position);
        *t = tile;
        proof {
            lemma_single_tile_update_frame(
                m0,
                *self,
                position.x as int,
                position.y as int,
                tile,
            );
        }
    }
}

/// All draw commands computed for one frame: the textured quads of every
/// visible chunk, and the diagnostic outlines when the overlay is on.
#[derive(Clone, Debug)]
pub struct DrawPlan {
    pub quads: Vec<QuadDraw>,
    pub outlines: Vec<OutlineDraw>,
}

impl TileMap {
    /// The chunk-range bounds a camera sees on this map: floor of the view
    /// rectangle's lower corner and ceiling of its upper corner in chunk
    /// units, both clamped to `[0, size]`.
    pub open spec fn range_lo_x(self, cam: Camera) -> int {
        grid_floor(
            view_lo_x_num(cam),
            view_den_x(cam),
            self.spec_chunk_world_size(),
            self.spec_size().x as int,
        )
    }

    pub open spec fn range_hi_x(self, cam: Camera) -> int {
        grid_ceil(
            view_hi_x_num(cam),
            view_den_x(cam),
            self.spec_chunk_world_size(),
            self.spec_size().x as int,
        )
    }

    pub open spec fn range_lo_y(self, cam: Camera) -> int {
        grid_floor(
            view_lo_y_num(cam),
            view_den_y(cam),
            self.spec_chunk_world_size(),
            self.spec_size().y as int,
        )
    }

    pub open spec fn range_hi_y(self, cam: Camera) -> int {
        grid_ceil(
            view_hi_y_num(cam),
            view_den_y(cam),
            self.spec_chunk_world_size(),
            self.spec_size().y as int,
        )
    }

    /// The camera inputs and the map are small enough for the exact culling
    /// arithmetic.
    pub open spec fn cullable(self) -> bool {
        &&& 1 <= self.spec_chunk_world_size() <= COORD_BOUND
        &&& self.spec_size().x <= COORD_BOUND
        &&& self.spec_size().y <= COORD_BOUND
    }

    /// The half-open ranges of chunk indices that cover everything the
    /// camera sees: the view rectangle `target` plus and minus the enlarged
    /// half extent, converted to chunk units with the lower corner floored
    /// and the upper corner ceiled, clamped to `[0, size]`. The result is
    /// always a valid sub-range of the chunk grid.
    pub fn get_area_around(&self, camera: &Camera) -> (r: (Vec2u, Vec2u))
        requires
            self.wf(),
            camera.wf(),
            self.cullable(),
        ensures
            r.0.x == self.range_lo_x(*camera),
            r.0.y == self.range_lo_y(*camera),
            r.1.x == self.range_hi_x(*camera),
            r.1.y == self.range_hi_y(*camera),
            r.0.x <= r.1.x <= self.spec_size().x,
            r.0.y <= r.1.y <= self.spec_size().y,
    {
        let (lo, hi) = view_area(camera);
        let w = self.chunk_world_size();
        let r = get_area_in_grid(w, self.size, lo, hi);
        proof {
            lemma_grid_range_ordered(
                view_lo_x_num(*camera),
                view_hi_x_num(*camera),
                view_den_x(*camera),
                self.spec_chunk_world_size(),
                self.spec_size().x as int,
            );
            lemma_grid_range_ordered(
                view_lo_y_num(*camera),
                view_hi_y_num(*camera),
                view_den_y(*camera),
                self.spec_chunk_world_size(),
                self.spec_size().y as int,
            );
        }
        r
    }

    /// Draws every chunk the camera sees: culls the chunk range, then visits
    /// it row by row, collecting each visited chunk's quads; with the
    /// overlay on, also one outline per visited chunk and one around the
    /// whole map, last.
    pub fn draw_around(&self, camera: &Camera, debug_display: bool) -> (r: DrawPlan)
        requires
            self.wf(),
            camera.wf(),
            self.cullable(),
        ensures
            r.quads@ == area_quads(
                *self,
                self.range_lo_x(*camera),
                self.range_hi_x(*camera),
                self.range_lo_y(*camera),
                (self.range_hi_y(*camera) - self.range_lo_y(*camera)) as nat,
            ),
            debug_display ==> r.outlines@ == area_outlines(
                *self,
                self.range_lo_x(*camera),
                self.range_hi_x(*camera),
                self.range_lo_y(*camera),
                (self.range_hi_y(*camera) - self.range_lo_y(*camera)) as nat,
            ).push(map_outline(*self)),
            !debug_display ==> r.outlines@ == Seq::<OutlineDraw>::empty(),
    {
        let (lo, hi) = self.get_area_around(camera);
        let w = self.chunk_world_size();
        let mut quads: Vec<QuadDraw> = Vec::new();
        let mut outlines: Vec<OutlineDraw> = Vec::new();
        let mut y = lo.y;
        while y < hi.y
            invariant
                self.wf(),
                w == self.spec_chunk_world_size(),
                lo.x <= hi.x <= self.spec_size().x,
                lo.y <= y <= hi.y,
                hi.y <= self.spec_size().y,
                quads@ == area_quads(*self, lo.x as int, hi.x as int, lo.y as int, (y - lo.y) as nat),
                debug_display ==> outlines@ == area_outlines(
                    *self,
                    lo.x as int,
                    hi.x as int,
                    lo.y as int,
                    (y - lo.y) as nat,
                ),
                !debug_display ==> outlines@ == Seq::<OutlineDraw>::empty(),
            decreases hi.y - y,
        {
            let mut x = lo.x;
            while x < hi.x
                invariant
                    self.wf(),
                    w == self.spec_chunk_world_size(),
                    lo.x <= x <= hi.x <= self.spec_size().x,
                    lo.y <= y < hi.y,
                    hi.y <= self.spec_size().y,
                    quads@ == area_quads(
                        *self,
                        lo.x as int,
                        hi.x as int,
                        lo.y as int,
                        (y - lo.y) as nat,
                    ) + row_quads(*self, y as int, lo.x as int, (x - lo.x) as nat),
                    debug_display ==> outlines@ == area_outlines(
                        *self,
                        lo.x as int,
                        hi.x as int,
                        lo.y as int,
                        (y - lo.y) as nat,
                    ) + row_outlines(*self, y as int, lo.x as int, (x - lo.x) as nat),
                    !debug_display ==> outlines@ == Seq::<OutlineDraw>::empty(),
                decreases hi.x - x,
            {
                proof {
                    lemma_mul_inequality(x as int + 1, self.spec_size().x as int, w as int);
                    lemma_mul_inequality(y as int + 1, self.spec_size().y as int, w as int);
                    lemma_grid_index_in_range(
                        x as int,
                        y as int,
                        self.spec_size().x as int,
                        self.spec_size().y as int,
                    );
                    assert((x + 1) * w == x * w + w) by (nonlinear_arith);
                    assert((y + 1) * w == y * w + w) by (nonlinear_arith);
                }
                let position = Vec2u { x: x * w, y: y * w };
                let c = self.get_chunk(Vec2u { x, y });
                let mut cmds = c.draw_at(position);
                quads.append(&mut cmds);
                if debug_display {
                    let o = c.draw_debug_at(position);
                    outlines.push(o);
                }
                proof {
                    let m = *self;
                    let a = area_quads(m, lo.x as int, hi.x as int, lo.y as int, (y - lo.y) as nat);
                    let rq = row_quads(m, y as int, lo.x as int, (x - lo.x) as nat);
                    let cq = chunk_quads(m, x as int, y as int);
                    assert(row_quads(m, y as int, lo.x as int, (x + 1 - lo.x) as nat) == rq + cq);
                    assert((a + rq) + cq =~= a + (rq + cq));
                    if debug_display {
                        let ao = area_outlines(
                            m,
                            lo.x as int,
                            hi.x as int,
                            lo.y as int,
                            (y - lo.y) as nat,
                        );
                        let ro = row_outlines(m, y as int, lo.x as int, (x - lo.x) as nat);
                        let co = chunk_outline_at(m, x as int, y as int);
                        assert(row_outlines(m, y as int, lo.x as int, (x + 1 - lo.x) as nat)
                            == ro.push(co));
                        assert((ao + ro).push(co) =~= ao + ro.push(co));
                    }
                }
                x = x + 1;
            }
            proof {
                let m = *self;
                assert(area_quads(m, lo.x as int, hi.x as int, lo.y as int, (y + 1 - lo.y) as nat)
                    == area_quads(m, lo.x as int, hi.x as int, lo.y as int, (y - lo.y) as nat)
                    + row_quads(m, y as int, lo.x as int, (hi.x - lo.x) as nat));
                if debug_display {
                    assert(area_outlines(
                        m,
                        lo.x as int,
                        hi.x as int,
                        lo.y as int,
                        (y + 1 - lo.y) as nat,
                    ) == area_outlines(m, lo.x as int, hi.x as int, lo.y as int, (y - lo.y) as nat)
                        + row_outlines(m, y as int, lo.x as int, (hi.x - lo.x) as nat));
                }
            }
            y = y + 1;
        }
        if debug_display {
            let size = Vec2u { x: self.size.x * w, y: self.size.y * w };
            outlines.push(OutlineDraw { position: Vec2u { x: 0, y: 0 }, size });
        }
        DrawPlan { quads, outlines }
    }
}

/// The quads of the chunk at chunk coordinate `(cx, cy)`, drawn at its world
/// origin `(cx, cy) * chunk_world_size`.
pub open spec fn chunk_quads(m: TileMap, cx: int, cy: int) -> Seq<QuadDraw> {
    chunk_cmds(
        m.chunk_seq()[m.chunk_index(cx, cy)],
        cx * m.spec_chunk_world_size(),
        cy * m.spec_chunk_world_size(),
        (m.edge() * m.edge()) as nat,
    )
}

/// The quads of the first `k` chunks of row `cy`, starting at column `x0`.
pub open spec fn row_quads(m: TileMap, cy: int, x0: int, k: nat) -> Seq<QuadDraw>
    decreases k,
{
    if k == 0 {
        Seq::empty()
    } else {
        row_quads(m, cy, x0, (k - 1) as nat) + chunk_quads(m, x0 + k - 1, cy)
    }
}

/// The quads of the first `k` rows of the visited range `[x0, x1)`, starting
/// at row `y0`: rows outer, columns inner, both ascending.
pub open spec fn area_quads(m: TileMap, x0: int, x1: int, y0: int, k: nat) -> Seq<QuadDraw>
    decreases k,
{
    if k == 0 {
        Seq::empty()
    } else {
        area_quads(m, x0, x1, y0, (k - 1) as nat) + row_quads(m, y0 + k - 1, x0, (x1 - x0) as nat)
    }
}

/// The overlay outline of the chunk at chunk coordinate `(cx, cy)`.
pub open spec fn chunk_outline_at(m: TileMap, cx: int, cy: int) -> OutlineDraw {
    chunk_outline(
        m.chunk_seq()[m.chunk_index(cx, cy)],
        Vec2u {
            x: (cx * m.spec_chunk_world_size()) as usize,
            y: (cy * m.spec_chunk_world_size()) as usize,
        },
    )
}

/// The outlines of the first `k` chunks of row `cy`, starting at column `x0`.
pub open spec fn row_outlines(m: TileMap, cy: int, x0: int, k: nat) -> Seq<OutlineDraw>
    decreases k,
{
    if k == 0 {
        Seq::empty()
    } else {
        row_outlines(m, cy, x0, (k - 1) as nat).push(chunk_outline_at(m, x0 + k - 1, cy))
    }
}

/// The outlines of the first `k` visited rows.
pub open spec fn area_outlines(m: TileMap, x0: int, x1: int, y0: int, k: nat) -> Seq<OutlineDraw>
    decreases k,
{
    if k == 0 {
        Seq::empty()
    } else {
        area_outlines(m, x0, x1, y0, (k - 1) as nat) + row_outlines(
            m,
            y0 + k - 1,
            x0,
            (x1 - x0) as nat,
        )
    }
}

/// The overlay outline around the whole map.
pub open spec fn map_outline(m: TileMap) -> OutlineDraw {
    OutlineDraw {
        position: Vec2u { x: 0, y: 0 },
        size: Vec2u {
            x: (m.spec_size().x * m.spec_chunk_world_size()) as usize,
            y: (m.spec_size().y * m.spec_chunk_world_size()) as usize,
        },
    }
}

/// With rotation 0 (|cos| = 1, |sin| = 0) and the whole unrotated view
/// rectangle `[target - 1/zoom, target + 1/zoom]` inside the map's world
/// extent, the chunk range that [`TileMap::draw_around`] visits, converted
/// back to world units, fully contains that rectangle. Every inequality is
/// cross-multiplied by the positive `target.den * zoom.num` of its axis.
pub proof fn lemma_visible_range_contains_view(m: TileMap, cam: Camera)
    requires
        m.wf(),
        cam.wf(),
        m.cullable(),
        cam.cos_abs.num == cam.cos_abs.den,
        cam.sin_abs.num == 0,
        0 <= cam.target.x.num * cam.zoom.x.num - cam.target.x.den * cam.zoom.x.den,
        cam.target.x.num * cam.zoom.x.num + cam.target.x.den * cam.zoom.x.den
            <= m.spec_size().x as int * m.spec_chunk_world_size() * (cam.target.x.den
            * cam.zoom.x.num),
        0 <= cam.target.y.num * cam.zoom.y.num - cam.target.y.den * cam.zoom.y.den,
        cam.target.y.num * cam.zoom.y.num + cam.target.y.den * cam.zoom.y.den
            <= m.spec_size().y as int * m.spec_chunk_world_size() * (cam.target.y.den
            * cam.zoom.y.num),
    ensures
        m.range_lo_x(cam) * m.spec_chunk_world_size() * (cam.target.x.den * cam.zoom.x.num)
            <= cam.target.x.num * cam.zoom.x.num - cam.target.x.den * cam.zoom.x.den,
        cam.target.x.num * cam.zoom.x.num + cam.target.x.den * cam.zoom.x.den <= m.range_hi_x(
            cam,
        ) * m.spec_chunk_world_size() * (cam.target.x.den * cam.zoom.x.num),
        m.range_lo_y(cam) * m.spec_chunk_world_size() * (cam.target.y.den * cam.zoom.y.num)
            <= cam.target.y.num * cam.zoom.y.num - cam.target.y.den * cam.zoom.y.den,
        cam.target.y.num * cam.zoom.y.num + cam.target.y.den * cam.zoom.y.den <= m.range_hi_y(
            cam,
        ) * m.spec_chunk_world_size() * (cam.target.y.den * cam.zoom.y.num),
{
    lemma_culling_containment(
        cam,
        m.spec_chunk_world_size(),
        m.spec_size().x as int,
        m.spec_size().y as int,
    );
}

/// A camera whose view lies entirely at or beyond the map's right edge
/// yields the empty chunk range `[size.x, size.x)` on the x axis - clamped,
/// never out of bounds.
pub proof fn lemma_visible_range_empty_beyond_x(m: TileMap, cam: Camera)
    requires
        m.wf(),
        cam.wf(),
        m.cullable(),
        m.spec_size().x as int * (view_den_x(cam) * m.spec_chunk_world_size())
            <= view_lo_x_num(cam),
    ensures
        m.range_lo_x(cam) == m.spec_size().x,
        m.range_hi_x(cam) == m.spec_size().x,
{
    lemma_camera_bounds(cam);
    lemma_grid_range_empty_beyond(
        view_lo_x_num(cam),
        view_hi_x_num(cam),
        view_den_x(cam),
        m.spec_chunk_world_size(),
        m.spec_size().x as int,
    );
}

/// A camera whose view lies entirely at or beyond the map's bottom edge
/// yields the empty chunk range `[size.y, size.y)` on the y axis.
pub proof fn lemma_visible_range_empty_beyond_y(m: TileMap, cam: Camera)
    requires
        m.wf(),
        cam.wf(),
        m.cullable(),
        m.spec_size().y as int * (view_den_y(cam) * m.spec_chunk_world_size())
            <= view_lo_y_num(cam),
    ensures
        m.range_lo_y(cam) == m.spec_size().y,
        m.range_hi_y(cam) == m.spec_size().y,
{
    lemma_camera_bounds(cam);
    lemma_grid_range_empty_beyond(
        view_lo_y_num(cam),
        view_hi_y_num(cam),
        view_den_y(cam),
        m.spec_chunk_world_size(),
        m.spec_size().y as int,
    );
}

/// A map that differs from a well-formed one only in a single entry of the
/// chunk owning tile coordinate `(px, py)` carries `t` at `(px, py)` and the
/// old tile everywhere else.
pub proof fn lemma_single_tile_update_frame(m0: TileMap, m1: TileMap, px: int, py: int, t: Tile)
    requires
        m0.wf(),
        m0.valid_tile(px, py),
        m1.spec_size() == m0.spec_size(),
        m1.edge() == m0.edge(),
        m1.chunk_seq().len() == m0.chunk_seq().len(),
        m1.chunk_seq()[m0.chunk_of(px, py)].edge() == m0.edge(),
        m1.chunk_seq()[m0.chunk_of(px, py)].tile_seq() == m0.chunk_seq()[m0.chunk_of(
            px,
            py,
        )].tile_seq().update(m0.local_of(px, py), t),
        forall|j: int|
            0 <= j < m0.chunk_seq().len() && j != m0.chunk_of(px, py) ==> m1.chunk_seq()[j]
                == m0.chunk_seq()[j],
    ensures
        m1.tile_at(px, py) == t,
        forall|tx: int, ty: int|
            m0.valid_tile(tx, ty) && !(tx == px && ty == py) ==> #[trigger] m1.tile_at(tx, ty)
                == m0.tile_at(tx, ty),
{
    let n = m0.edge() as int;
    let sx = m0.spec_size().x as int;
    lemma_tile_coords_valid(m0, px, py);
    lemma_flat_index_in_range(px % n, py % n, n);
    assert(m1.tile_at(px, py) == t);
    assert forall|tx: int, ty: int|
        m0.valid_tile(tx, ty) && !(tx == px && ty == py) implies #[trigger] m1.tile_at(tx, ty)
        == m0.tile_at(tx, ty) by {
        lemma_tile_coords_valid(m0, tx, ty);
        let ci = m0.chunk_of(px, py);
        let ci2 = m0.chunk_of(tx, ty);
        if ci2 == ci {
            lemma_grid_index_injective(tx / n, ty / n, px / n, py / n, sx);
            lemma_flat_index_in_range(tx % n, ty % n, n);
            if (tx % n) * n + (ty % n) == (px % n) * n + (py % n) {
                lemma_grid_index_injective(ty % n, tx % n, py % n, px % n, n);
                assert(tx == px && ty == py);
            } else {
                assert(m1.tile_at(tx, ty) == m0.tile_at(tx, ty));
            }
        } else {
            assert(m1.tile_at(tx, ty) == m0.tile_at(tx, ty));
        }
    }
}

/// `(cx, cy)` inside the grid puts `cx + cy * sx` inside the flat array.
pub proof fn lemma_grid_index_in_range(cx: int, cy: int, sx: int, sy: int)
    requires
        0 <= cx < sx,
        0 <= cy < sy,
    ensures
        0 <= cx + cy * sx < sx * sy,
{
    assert(cx + cy * sx < sx * sy) by (nonlinear_arith)
        requires
            0 <= cx < sx,
            0 <= cy < sy,
    ;
    assert(0 <= cy * sx) by (nonlinear_arith)
        requires
            0 <= cy,
            0 < sx,
    ;
}

/// Two grid coordinates with the same flat index are the same coordinate.
pub proof fn lemma_grid_index_injective(x1: int, y1: int, x2: int, y2: int, s: int)
    requires
        0 <= x1 < s,
        0 <= x2 < s,
        0 <= y1,
        0 <= y2,
        x1 + y1 * s == x2 + y2 * s,
    ensures
        x1 == x2,
        y1 == y2,
{
    let idx = x1 + y1 * s;
    lemma_fundamental_div_mod_converse(idx, s, y1, x1);
    lemma_fundamental_div_mod_converse(idx, s, y2, x2);
}

/// Dividing a valid tile coordinate by the chunk edge lands inside the
/// chunk grid, and floor/remainder reconstruct the coordinate.
proof fn lemma_tile_coords_valid(m: TileMap, tx: int, ty: int)
    requires
        m.wf(),
        m.valid_tile(tx, ty),
    ensures
        0 <= tx / (m.edge() as int) < m.spec_size().x,
        0 <= ty / (m.edge() as int) < m.spec_size().y,
        0 <= tx % (m.edge() as int) < m.edge(),
        0 <= ty % (m.edge() as int) < m.edge(),
        (tx / m.edge() as int) * m.edge() + tx % m.edge() as int == tx,
        (ty / m.edge() as int) * m.edge() + ty % m.edge() as int == ty,
        0 <= m.chunk_index(tx / m.edge() as int, ty / m.edge() as int) < m.chunk_seq().len(),
{
    let n = m.edge() as int;
    let sx = m.spec_size().x as int;
    let sy = m.spec_size().y as int;
    lemma_fundamental_div_mod(tx, n);
    lemma_fundamental_div_mod(ty, n);
    lemma_mod_bound(tx, n);
    lemma_mod_bound(ty, n);
    lemma_mul_is_commutative(sx, n);
    lemma_mul_is_commutative(sy, n);
    lemma_multiply_divide_lt(tx, n, sx);
    lemma_multiply_divide_lt(ty, n, sy);
    lemma_mul_is_commutative(n, tx / n);
    lemma_mul_is_commutative(n, ty / n);
    lemma_grid_index_in_range(tx / n, ty / n, sx, sy);
}

} // verus!

