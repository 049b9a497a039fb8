//! Viewport culling: exact chunk ranges for panned, zoomed and rotated
//! cameras, with clamping at the map's edges.

use tilemap::culling::Camera;
use tilemap::geom::{RatVec2, Ratio, Vec2u};
use tilemap::tilemap::TileMap;

fn ratio(num: i64, den: i64) -> Ratio {
    Ratio::new(num, den)
}

fn camera(target: (i64, i64), zoom: (Ratio, Ratio), cos_abs: Ratio, sin_abs: Ratio) -> Camera {
    Camera {
        target: RatVec2::new(ratio(target.0, 1), ratio(target.1, 1)),
        zoom: RatVec2::new(zoom.0, zoom.1),
        cos_abs,
        sin_abs,
    }
}

const COS0: Ratio = Ratio { num: 1, den: 1 };
const SIN0: Ratio = Ratio { num: 0, den: 1 };
const COS90: Ratio = Ratio { num: 0, den: 1 };
const SIN90: Ratio = Ratio { num: 1, den: 1 };

#[test]
fn whole_map_scenario() {
    // 2x2 chunks of 16 tiles of world size 1: chunk_world_size = 16.
    let map = TileMap::gen_from_size(Vec2u::new(2, 2), 16);
    // Half extent 1/zoom = 8, no rotation: view [(8,8), (24,24)].
    let cam = camera((16, 16), (ratio(1, 8), ratio(1, 8)), COS0, SIN0);
    let (lo, hi) = map.get_area_around(&cam);
    assert_eq!(lo, Vec2u::new(0, 0));
    assert_eq!(hi, Vec2u::new(2, 2));
}

#[test]
fn far_outside_clamps_to_empty_range() {
    let map = TileMap::gen_from_size(Vec2u::new(2, 2), 16);
    let cam = camera((10000, 10000), (ratio(1, 8), ratio(1, 8)), COS0, SIN0);
    let (lo, hi) = map.get_area_around(&cam);
    assert_eq!(lo, Vec2u::new(2, 2));
    assert_eq!(hi, Vec2u::new(2, 2));
    let plan = map.draw_around(&cam, false);
    assert_eq!(plan.quads.len(), 0);
}

#[test]
fn view_left_of_map_clamps_to_zero() {
    let map = TileMap::gen_from_size(Vec2u::new(2, 2), 16);
    // View [(-8,-8), (8,8)]: floor(-0.5) clamps to 0, ceil(0.5) is 1.
    let cam = camera((0, 0), (ratio(1, 8), ratio(1, 8)), COS0, SIN0);
    let (lo, hi) = map.get_area_around(&cam);
    assert_eq!(lo, Vec2u::new(0, 0));
    assert_eq!(hi, Vec2u::new(1, 1));
}

#[test]
fn quarter_turn_swaps_the_extents() {
    // 8x8 chunks of 4 tiles: chunk_world_size = 4, world extent 32.
    let map = TileMap::gen_from_size(Vec2u::new(8, 8), 4);
    let zoom = (ratio(1, 8), ratio(1, 2));
    // Unrotated: x view [8,24] -> chunks [2,6); y view [14,18] -> [3,5).
    let (lo0, hi0) = map.get_area_around(&camera((16, 16), zoom, COS0, SIN0));
    assert_eq!(lo0, Vec2u::new(2, 3));
    assert_eq!(hi0, Vec2u::new(6, 5));
    // Rotated 90 degrees: the extents swap axes.
    let (lo90, hi90) = map.get_area_around(&camera((16, 16), zoom, COS90, SIN90));
    assert_eq!(lo90, Vec2u::new(3, 2));
    assert_eq!(hi90, Vec2u::new(5, 6));
}

#[test]
fn unrotated_range_contains_the_view_rectangle() {
    let map = TileMap::gen_from_size(Vec2u::new(2, 2), 16);
    let cam = camera((16, 16), (ratio(1, 8), ratio(1, 8)), COS0, SIN0);
    let (lo, hi) = map.get_area_around(&cam);
    let w = map.chunk_world_size();
    // View rectangle [(8,8), (24,24)] lies inside [lo*16, hi*16].
    assert!(lo.x * w <= 8 && 24 <= hi.x * w);
    assert!(lo.y * w <= 8 && 24 <= hi.y * w);
}

#[test]
fn fractional_camera_state_is_exact() {
    // 4x4 chunks of 1 tile: chunk_world_size = 1.
    let map = TileMap::gen_from_size(Vec2u::new(4, 4), 1);
    // Target 3/2, half extent 1/2: view [(1,3/4), (2,7/4)].
    let cam = Camera {
        target: RatVec2::new(ratio(3, 2), ratio(5, 4)),
        zoom: RatVec2::new(ratio(2, 1), ratio(2, 1)),
        cos_abs: COS0,
        sin_abs: SIN0,
    };
    let (lo, hi) = map.get_area_around(&cam);
    assert_eq!(lo, Vec2u::new(1, 0));
    assert_eq!(hi, Vec2u::new(2, 2));
}
