//! Draw dispatch: the exact quad and outline commands emitted for chunks
//! and for camera-visible map regions.

use tilemap::chunk::{AtlasRect, Chunk, OutlineDraw, QuadDraw};
use tilemap::culling::Camera;
use tilemap::geom::{RatVec2, Ratio, Vec2u};
use tilemap::tile::Tile;
use tilemap::tilemap::TileMap;

fn quad(px: usize, py: usize, src_x: usize) -> QuadDraw {
    QuadDraw {
        position: Vec2u::new(px, py),
        dest_size: 1,
        source: AtlasRect { x: src_x, y: 0, w: 8, h: 8 },
    }
}

#[test]
fn all_empty_chunk_emits_no_quads() {
    let chunk = Chunk::gen_from_tile(Tile::new(0), 16);
    let quads = chunk.draw_at(Vec2u::new(0, 0));
    assert_eq!(quads.len(), 0);
}

#[test]
fn chunk_draw_emits_one_quad_per_filled_tile_in_order() {
    let mut chunk = Chunk::gen_from_tile(Tile::new(0), 2);
    *chunk.tile_mut(0, 0) = Tile::new(1);
    *chunk.tile_mut(1, 1) = Tile::new(3);
    let quads = chunk.draw_at(Vec2u::new(10, 20));
    // Local order is (0,0), (0,1), (1,0), (1,1); empty tiles are skipped.
    // Atlas x offset is (atlas_index - 1) * 8.
    assert_eq!(quads, vec![quad(10, 20, 0), quad(11, 21, 16)]);
}

#[test]
fn full_chunk_emits_every_tile() {
    let chunk = Chunk::gen_from_tile(Tile::new(2), 2);
    let quads = chunk.draw_at(Vec2u::new(0, 0));
    assert_eq!(quads, vec![quad(0, 0, 8), quad(0, 1, 8), quad(1, 0, 8), quad(1, 1, 8)]);
}

#[test]
fn chunk_outline_covers_its_world_square() {
    let chunk = Chunk::gen_from_tile(Tile::new(0), 4);
    // Derived sizes: 4 tiles of world size 1 and pixel size 8.
    assert_eq!(chunk.world_size(), 4);
    assert_eq!(chunk.pixel_size(), 32);
    let outline = chunk.draw_debug_at(Vec2u::new(8, 12));
    assert_eq!(
        outline,
        OutlineDraw { position: Vec2u::new(8, 12), size: Vec2u::new(4, 4) },
    );
}

#[test]
fn draw_around_emits_visible_tiles_row_major() {
    // 2x2 chunks of 2 tiles: world extent 4.
    let mut map = TileMap::gen_from_size(Vec2u::new(2, 2), 2);
    map.set_tile(Vec2u::new(0, 0), Tile::new(1));
    map.set_tile(Vec2u::new(3, 2), Tile::new(2));
    // Half extent 2 around (2,2): view [(0,0), (4,4)], the whole map.
    let cam = Camera {
        target: RatVec2::new(Ratio::new(2, 1), Ratio::new(2, 1)),
        zoom: RatVec2::new(Ratio::new(1, 2), Ratio::new(1, 2)),
        cos_abs: Ratio::new(1, 1),
        sin_abs: Ratio::new(0, 1),
    };
    let plan = map.draw_around(&cam, false);
    // Chunk visit order is (0,0), (1,0), (0,1), (1,1); tile (0,0) sits in
    // chunk (0,0), tile (3,2) in chunk (1,1) at local (1,0), world (3,2).
    assert_eq!(plan.quads, vec![quad(0, 0, 0), quad(3, 2, 8)]);
    assert_eq!(plan.outlines.len(), 0);
}

#[test]
fn draw_around_debug_outlines_every_visited_chunk_and_the_map() {
    let map = TileMap::gen_from_size(Vec2u::new(2, 2), 2);
    let cam = Camera {
        target: RatVec2::new(Ratio::new(2, 1), Ratio::new(2, 1)),
        zoom: RatVec2::new(Ratio::new(1, 2), Ratio::new(1, 2)),
        cos_abs: Ratio::new(1, 1),
        sin_abs: Ratio::new(0, 1),
    };
    let plan = map.draw_around(&cam, true);
    assert_eq!(plan.quads.len(), 0);
    let sq = |x: usize, y: usize| OutlineDraw {
        position: Vec2u::new(x, y),
        size: Vec2u::new(2, 2),
    };
    assert_eq!(
        plan.outlines,
        vec![
            sq(0, 0),
            sq(2, 0),
            sq(0, 2),
            sq(2, 2),
            OutlineDraw { position: Vec2u::new(0, 0), size: Vec2u::new(4, 4) },
        ],
    );
}

#[test]
fn draw_around_culls_chunks_outside_the_view() {
    // 4x4 chunks of 2 tiles: world extent 8. Fill every tile.
    let mut map = TileMap::gen_from_size(Vec2u::new(4, 4), 2);
    for x in 0..8 {
        for y in 0..8 {
            map.set_tile(Vec2u::new(x, y), Tile::new(1));
        }
    }
    // Half extent 1 around (3,3): view [(2,2), (4,4)]: chunks [1,2) x [1,2).
    let cam = Camera {
        target: RatVec2::new(Ratio::new(3, 1), Ratio::new(3, 1)),
        zoom: RatVec2::new(Ratio::new(1, 1), Ratio::new(1, 1)),
        cos_abs: Ratio::new(1, 1),
        sin_abs: Ratio::new(0, 1),
    };
    let plan = map.draw_around(&cam, false);
    // Exactly chunk (1,1): its four tiles at world (2,2)..(3,3).
    assert_eq!(
        plan.quads,
        vec![quad(2, 2, 0), quad(2, 3, 0), quad(3, 2, 0), quad(3, 3, 0)],
    );
}
