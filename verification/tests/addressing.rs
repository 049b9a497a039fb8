//! Coordinate translation and tile read/write behaviour.

use tilemap::geom::Vec2u;
use tilemap::tile::Tile;
use tilemap::tilemap::TileMap;

fn map_2x2_n16() -> TileMap {
    TileMap::gen_from_size(Vec2u::new(2, 2), 16)
}

#[test]
fn round_trip_chunk_coords() {
    let map = map_2x2_n16();
    for &(x, y) in &[(0, 0), (1, 0), (15, 15), (16, 0), (0, 16), (31, 31), (17, 23)] {
        let (chunk, local) = map.get_chunk_coords(Vec2u::new(x, y));
        assert_eq!(chunk.x, x / 16);
        assert_eq!(chunk.y, y / 16);
        assert_eq!(local.x, x % 16);
        assert_eq!(local.y, y % 16);
        assert_eq!(chunk.x * 16 + local.x, x);
        assert_eq!(chunk.y * 16 + local.y, y);
    }
}

#[test]
fn gen_from_size_starts_empty() {
    let map = map_2x2_n16();
    assert_eq!(map.size(), Vec2u::new(2, 2));
    assert_eq!(map.edge_len(), 16);
    assert_eq!(map.chunk_world_size(), 16);
    for x in 0..32 {
        for y in 0..32 {
            assert_eq!(map.get_tile(Vec2u::new(x, y)).atlas_index, 0);
        }
    }
}

#[test]
fn set_then_get_returns_written_tile() {
    let mut map = map_2x2_n16();
    map.set_tile(Vec2u::new(5, 7), Tile::new(3));
    assert_eq!(map.get_tile(Vec2u::new(5, 7)), Tile::new(3));
}

#[test]
fn set_tile_leaves_other_tiles_alone() {
    let mut map = map_2x2_n16();
    map.set_tile(Vec2u::new(5, 7), Tile::new(3));
    map.set_tile(Vec2u::new(17, 23), Tile::new(9));
    assert_eq!(map.get_tile(Vec2u::new(5, 7)).atlas_index, 3);
    assert_eq!(map.get_tile(Vec2u::new(17, 23)).atlas_index, 9);
    assert_eq!(map.get_tile(Vec2u::new(7, 5)).atlas_index, 0);
    assert_eq!(map.get_tile(Vec2u::new(23, 17)).atlas_index, 0);
    map.set_tile(Vec2u::new(5, 7), Tile::new(1));
    assert_eq!(map.get_tile(Vec2u::new(5, 7)).atlas_index, 1);
    assert_eq!(map.get_tile(Vec2u::new(17, 23)).atlas_index, 9);
}

#[test]
fn get_tile_mut_writes_through() {
    let mut map = map_2x2_n16();
    {
        let t = map.get_tile_mut(Vec2u::new(30, 1));
        *t = Tile::new(4);
    }
    assert_eq!(map.get_tile(Vec2u::new(30, 1)).atlas_index, 4);
}

#[test]
fn get_chunk_reads_the_right_chunk() {
    let mut map = map_2x2_n16();
    map.set_tile(Vec2u::new(16, 16), Tile::new(2));
    let chunk = map.get_chunk(Vec2u::new(1, 1));
    assert_eq!(chunk.get_local(0, 0).atlas_index, 2);
    assert_eq!(chunk.edge_len(), 16);
}

#[test]
fn get_chunk_mut_writes_locally() {
    let mut map = map_2x2_n16();
    {
        let chunk = map.get_chunk_mut(Vec2u::new(0, 1));
        let t = chunk.tile_mut(2, 3);
        *t = Tile::new(7);
    }
    assert_eq!(map.get_tile(Vec2u::new(2, 19)).atlas_index, 7);
}

#[test]
fn atlas_location_is_one_based_and_horizontal() {
    assert_eq!(Tile::new(1).get_location_in_atlas(), Vec2u::new(0, 0));
    assert_eq!(Tile::new(2).get_location_in_atlas(), Vec2u::new(8, 0));
    assert_eq!(Tile::new(5).get_location_in_atlas(), Vec2u::new(32, 0));
}
