//! The atomic grid cell: a tile carrying a 1-based index into the shared
//! texture atlas, with 0 meaning empty.

use vstd::prelude::*;
use crate::geom::Vec2u;

verus! {

/// Edge length of one atlas sub-image, in pixels.
pub const TILE_PIXEL_SIZE: usize = 8;

/// Edge length of one tile, in world units.
pub const TILE_WORLD_SIZE: usize = 1;

/// One grid cell. `atlas_index` 0 draws nothing; an index `k >= 1` selects
/// the sub-image at x-offset `(k - 1) * TILE_PIXEL_SIZE` in the atlas.
#[derive(Clone, Copy, Debug, PartialEq, Eq, Structural)]
pub struct Tile {
    pub atlas_index: usize,
}

/// The tile's atlas offset can be computed without overflowing `usize`.
pub open spec fn tile_ok(t: Tile) -> bool {
    t.atlas_index * TILE_PIXEL_SIZE <= usize::MAX
}

impl Tile {
    pub fn new(atlas_index: usize) -> (r: Tile)
        ensures
            r.atlas_index == atlas_index,
    {
        Tile { atlas_index }
    }

    /// Pixel offset of this tile's sub-image in the atlas: tiles are laid
    /// out left to right with no vertical wrapping, so the offset is
    /// `((atlas_index - 1) * TILE_PIXEL_SIZE, 0)`.
    pub fn get_location_in_atlas(&self) -> (r: Vec2u)
        requires
            1 <= self.atlas_index,
            (self.atlas_index - 1) * TILE_PIXEL_SIZE <= usize::MAX,
        ensures
            r.x == (self.atlas_index - 1) * TILE_PIXEL_SIZE,
            r.y == 0,
    {
        Vec2u { x: (self.atlas_index - 1) * TILE_PIXEL_SIZE, y: 0 }
    }
}

} // verus!
