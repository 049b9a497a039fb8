//! A square batch of tiles: the unit of spatial partitioning and of
//! draw-call batching.
//!
//! Drawing a chunk does not touch the rendering backend: it returns the
//! exact sequence of textured-quad commands the backend must execute, in
//! row-major order over the chunk's local coordinates, skipping empty tiles.

use vstd::prelude::*;
use vstd::arithmetic::div_mod::lemma_fundamental_div_mod_converse;
use vstd::arithmetic::mul::lemma_mul_inequality;
use crate::geom::Vec2u;
use crate::tile::{Tile, tile_ok, TILE_PIXEL_SIZE, TILE_WORLD_SIZE};

verus! {

/// A source rectangle in the texture atlas, in pixels.
#[derive(Clone, Copy, Debug, PartialEq, Eq, Structural)]
pub struct AtlasRect {
    pub x: usize,
    pub y: usize,
    pub w: usize,
    pub h: usize,
}

/// One textured-quad draw command: blit `source` from the atlas to the
/// square of edge `dest_size` at `position`, both in world units.
#[derive(Clone, Copy, Debug, PartialEq, Eq, Structural)]
pub struct QuadDraw {
    pub position: Vec2u,
    pub dest_size: usize,
    pub source: AtlasRect,
}

/// One stroked-rectangle draw command (diagnostic overlay), in world units.
#[derive(Clone, Copy, Debug, PartialEq, Eq, Structural)]
pub struct OutlineDraw {
    pub position: Vec2u,
    pub size: Vec2u,
}

/// A square `edge x edge` array of tiles, stored flat with local coordinate
/// `(lx, ly)` at index `lx * edge + ly`.
#[derive(Clone, Debug)]
pub struct Chunk {
    n: usize,
    tiles: Vec<Tile>,
}

impl Chunk {
    /// Edge length of the chunk, in tiles; every chunk of a map shares it.
    pub closed spec fn edge(self) -> usize {
        self.n
    }

    /// The tiles, flat in local row-major order.
    pub closed spec fn tile_seq(self) -> Seq<Tile> {
        self.tiles@
    }

    pub open spec fn wf(self) -> bool {
        &&& 1 <= self.edge()
        &&& self.edge() * self.edge() == self.tile_seq().len()
        &&& forall|i: int|
            0 <= i < self.tile_seq().len() ==> tile_ok(#[trigger] self.tile_seq()[i])
    }

    /// The tile at local coordinate `(lx, ly)`.
    pub open spec fn tile_at(self, lx: int, ly: int) -> Tile {
        self.tile_seq()[lx * self.edge() + ly]
    }

    /// Edge length of the chunk in world units.
    pub open spec fn spec_world_size(self) -> int {
        self.edge() * TILE_WORLD_SIZE
    }

    pub fn edge_len(&self) -> (r: usize)
        ensures
            r == self.edge(),
    {
        self.n
    }

    /// Edge length of the chunk in world units.
    pub fn world_size(&self) -> (r: usize)
        requires
            self.edge() * TILE_WORLD_SIZE <= usize::MAX,
        ensures
            r == self.spec_world_size(),
    {
        self.n * TILE_WORLD_SIZE
    }

    /// Edge length of the chunk in atlas pixels.
    pub fn pixel_size(&self) -> (r: usize)
        requires
            self.edge() * TILE_PIXEL_SIZE <= usize::MAX,
        ensures
            r == self.edge() * TILE_PIXEL_SIZE,
    {
        self.n * TILE_PIXEL_SIZE
    }

    /// A chunk of edge `n` with every tile equal to `tile`.
    pub fn gen_from_tile(tile: Tile, n: usize) -> (r: Chunk)
        requires
            1 <= n,
            n * n <= usize::MAX,
            tile_ok(tile),
        ensures
            r.wf(),
            r.edge() == n,
            forall|i: int| 0 <= i < r.tile_seq().len() ==> r.tile_seq()[i] == tile,
    {
        let count = n * n;
        let mut tiles: Vec<Tile> = Vec::new();
        let mut i: usize = 0;
        while i < count
            invariant
                i <= count,
                tiles@.len() == i,
                forall|j: int| 0 <= j < i ==> tiles@[j] == tile,
            decreases count - i,
        {
            tiles.push(tile);
            i = i + 1;
        }
        Chunk { n, tiles }
    }

    /// The tile at local coordinate `(lx, ly)`.
    pub fn get_local(&self, lx: usize, ly: usize) -> (t: Tile)
        requires
            self.wf(),
            lx < self.edge(),
            ly < self.edge(),
        ensures
            t == self.tile_at(lx as int, ly as int),
    {
        let _len = self.tiles.len();
        proof {
            lemma_flat_index_in_range(lx as int, ly as int, self.edge() as int);
        }
        self.tiles[lx * self.n + ly]
    }

    /// A mutable borrow of the tile at local coordinate `(lx, ly)`.
    pub fn tile_mut(&mut self, lx: usize, ly: usize) -> (t: &mut Tile)
        requires
            old(self).wf(),
            lx < old(self).edge(),
            ly < old(self).edge(),
        ensures
            *t == old(self).tile_at(lx as int, ly as int),
            final(self).edge() == old(self).edge(),
            final(self).tile_seq() == old(self).tile_seq().update(
                lx * old(self).edge() + ly,
                *final(t),
            ),
            tile_ok(*final(t)) ==> final(self).wf(),
    {
        let _len = self.tiles.len();
        proof {
            lemma_flat_index_in_range(lx as int, ly as int, self.edge() as int);
        }
        let idx = lx * self.n + ly;
        &mut self.tiles[idx]
    }
}

/// `lx * n + ly` stays below `n * n` when both locals are below `n`.
pub proof fn lemma_flat_index_in_range(lx: int, ly: int, n: int)
    requires
        0 <= lx < n,
        0 <= ly < n,
    ensures
        0 <= lx * n + ly < n * n,
{
    assert(lx * n + ly < n * n) by (nonlinear_arith)
        requires
            0 <= lx < n,
            0 <= ly < n,
    ;
    assert(0 <= lx * n) by (nonlinear_arith)
        requires
            0 <= lx,
            0 < n,
    ;
}

/// The quad command emitted for the tile at flat local index `k` of a chunk
/// drawn with its origin at world position `(ox, oy)`.
pub open spec fn quad_for(c: Chunk, ox: int, oy: int, k: int) -> QuadDraw {
    QuadDraw {
        position: Vec2u {
            x: (ox + (k / c.edge() as int) * TILE_WORLD_SIZE) as usize,
            y: (oy + (k % c.edge() as int) * TILE_WORLD_SIZE) as usize,
        },
        dest_size: TILE_WORLD_SIZE,
        source: AtlasRect {
            x: ((c.tile_seq()[k].atlas_index - 1) * TILE_PIXEL_SIZE) as usize,
            y: 0,
            w: TILE_PIXEL_SIZE,
            h: TILE_PIXEL_SIZE,
        },
    }
}

/// The draw commands for the first `k` flat local indices of a chunk drawn
/// at world origin `(ox, oy)`: one quad per non-empty tile, in order.
pub open spec fn chunk_cmds(c: Chunk, ox: int, oy: int, k: nat) -> Seq<QuadDraw>
    decreases k,
{
    if k == 0 {
        Seq::empty()
    } else {
        let prev = chunk_cmds(c, ox, oy, (k - 1) as nat);
        if c.tile_seq()[k - 1].atlas_index == 0 {
            prev
        } else {
            prev.push(quad_for(c, ox, oy, k - 1))
        }
    }
}

/// A chunk whose tiles are all empty emits no draw command at all.
pub proof fn lemma_empty_chunk_draws_nothing(c: Chunk, ox: int, oy: int, k: nat)
    requires
        forall|i: int|
            0 <= i < c.tile_seq().len() ==> #[trigger] c.tile_seq()[i].atlas_index == 0,
        k <= c.tile_seq().len(),
    ensures
        chunk_cmds(c, ox, oy, k) == Seq::<QuadDraw>::empty(),
    decreases k,
{
    if k > 0 {
        lemma_empty_chunk_draws_nothing(c, ox, oy, (k - 1) as nat);
    }
}

impl Chunk {
    /// The textured-quad commands for this chunk drawn with its origin at
    /// world position `position`: local coordinates are visited in row-major
    /// order (`lx` outer, `ly` inner), empty tiles emit nothing, and the
    /// tile at `(lx, ly)` lands at `position + (lx, ly) * TILE_WORLD_SIZE`
    /// with its atlas source rectangle.
    pub fn draw_at(&self, position: Vec2u) -> (r: Vec<QuadDraw>)
        requires
            self.wf(),
            position.x + self.edge() * TILE_WORLD_SIZE <= usize::MAX,
            position.y + self.edge() * TILE_WORLD_SIZE <= usize::MAX,
        ensures
            r@ == chunk_cmds(
                *self,
                position.x as int,
                position.y as int,
                (self.edge() * self.edge()) as nat,
            ),
    {
        let n = self.n;
        let _len = self.tiles.len();
        let ghost ox = position.x as int;
        let ghost oy = position.y as int;
        let mut r: Vec<QuadDraw> = Vec::new();
        let mut x: usize = 0;
        while x < n
            invariant
                self.wf(),
                n == self.edge(),
                position.x + n * TILE_WORLD_SIZE <= usize::MAX,
                position.y + n * TILE_WORLD_SIZE <= usize::MAX,
                ox == position.x as int,
                oy == position.y as int,
                n * n <= usize::MAX,
                x <= n,
                r@ == chunk_cmds(*self, ox, oy, (x * n) as nat),
            decreases n - x,
        {
            let mut y: usize = 0;
            while y < n
                invariant
                    self.wf(),
                    n == self.edge(),
                    position.x + n * TILE_WORLD_SIZE <= usize::MAX,
                    position.y + n * TILE_WORLD_SIZE <= usize::MAX,
                    ox == position.x as int,
                    oy == position.y as int,
                    n * n <= usize::MAX,
                    x < n,
                    y <= n,
                    r@ == chunk_cmds(*self, ox, oy, (x * n + y) as nat),
                decreases n - y,
            {
                proof {
                    lemma_flat_index_in_range(x as int, y as int, n as int);
                    lemma_fundamental_div_mod_converse(
                        x as int * n as int + y as int,
                        n as int,
                        x as int,
                        y as int,
                    );
                    lemma_mul_inequality(x as int + 1, n as int, n as int);
                }
                let k = x * n + y;
                let tile = self.tiles[k];
                if tile.atlas_index != 0 {
                    proof {
                        lemma_mul_inequality(x as int, n as int - 1, TILE_WORLD_SIZE as int);
                        lemma_mul_inequality(y as int, n as int - 1, TILE_WORLD_SIZE as int);
                    }
                    let wx = position.x + x * TILE_WORLD_SIZE;
                    let wy = position.y + y * TILE_WORLD_SIZE;
                    let src = tile.get_location_in_atlas();
                    let quad = QuadDraw {
                        position: Vec2u { x: wx, y: wy },
                        dest_size: TILE_WORLD_SIZE,
                        source: AtlasRect {
                            x: src.x,
                            y: src.y,
                            w: TILE_PIXEL_SIZE,
                            h: TILE_PIXEL_SIZE,
                        },
                    };
                    r.push(quad);
                    proof {
                        assert(quad == quad_for(*self, ox, oy, x as int * n as int + y as int));
                    }
                }
                y = y + 1;
            }
            x = x + 1;
            proof {
                assert(x * n == (x - 1) * n + n) by (nonlinear_arith);
            }
        }
        r
    }

    /// The diagnostic outline for this chunk drawn at world origin
    /// `position`: a stroked square of the chunk's world size.
    pub fn draw_debug_at(&self, position: Vec2u) -> (r: OutlineDraw)
        requires
            self.edge() * TILE_WORLD_SIZE <= usize::MAX,
        ensures
            r == chunk_outline(*self, position),
    {
        let size = self.n * TILE_WORLD_SIZE;
        OutlineDraw { position, size: Vec2u { x: size, y: size } }
    }
}

/// The outline command for a chunk drawn at world origin `position`.
pub open spec fn chunk_outline(c: Chunk, position: Vec2u) -> OutlineDraw {
    OutlineDraw {
        position,
        size: Vec2u {
            x: c.spec_world_size() as usize,
            y: c.spec_world_size() as usize,
        },
    }
}

} // verus!
