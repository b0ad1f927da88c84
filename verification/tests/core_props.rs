use cgmath::{Vector2, Vector3};
use genmesh::Triangle;
use tile_raster::eval::{AffineEvaluator, CollectSink, LevelClamp, ReplaceShader};
use tile_raster::group::TileGroup;
use tile_raster::lane::TileIndex;
use tile_raster::grid::LaneGrid;
use tile_raster::mask::TileMask;

const UNIT: i64 = 65536;
const FAR: i64 = 65536 * 65536;

fn flat(c: i64) -> Triangle<i64> {
    Triangle::new(c, c, c)
}

/// An evaluator covering every sample: constant weights (1/2, 1/4, 1/4).
fn full_cover() -> AffineEvaluator {
    AffineEvaluator { u0: UNIT / 4, ux: 0, uy: 0, v0: UNIT / 4, vx: 0, vy: 0 }
}

fn sink_colors(s: &CollectSink<i64>) -> Vec<(u32, u32, i64)> {
    s.log.clone()
}

#[test]
fn index_round_trip_is_transposed() {
    let i = TileIndex::from_xy(3, 4);
    assert_eq!(i.0, 28);
    // the accessors read the packed bits back transposed
    assert_eq!(i.x(), 4);
    assert_eq!(i.y(), 3);
    assert_eq!(i.x8(), 32);
    assert_eq!(i.y8(), 24);
}

#[test]
fn coverage_matches_membership() {
    // triangle with vertices at the tile corners (0,0), (8,0), (0,8),
    // sampled on the integer grid: u = x/8, v = y/8 in fixed point
    let e = AffineEvaluator { u0: 0, ux: UNIT / 8, uy: 0, v0: 0, vx: 0, vy: UNIT / 8 };
    let m = TileMask::new(Vector2 { x: 0i64, y: 0i64 }, Vector2 { x: 1i64, y: 1i64 }, &e);
    for i in 0..64u64 {
        let x = i % 8;
        let y = i / 8;
        let expect = x + y <= 8; // analytic membership, inclusive edges
        assert_eq!((m.mask >> i) & 1 == 1, expect, "lane {}", i);
    }
}

#[test]
fn adjacent_triangles_partition_the_tile() {
    // two triangles sharing the diagonal of a 16x16-unit square, sampled
    // at positions that never fall exactly on the shared edge
    let pos = Vector2 { x: 1i64, y: 0i64 };
    let scale = Vector2 { x: 2i64, y: 2i64 };
    let t1 = AffineEvaluator { u0: 0, ux: UNIT / 16, uy: 0, v0: 0, vx: 0, vy: UNIT / 16 };
    let t2 = AffineEvaluator {
        u0: UNIT,
        ux: -(UNIT / 16),
        uy: 0,
        v0: -UNIT,
        vx: UNIT / 16,
        vy: UNIT / 16,
    };
    let m1 = TileMask::new(pos, scale, &t1);
    let m2 = TileMask::new(pos, scale, &t2);
    assert_eq!(m1.mask & m2.mask, 0, "no double cover");
    assert_eq!(m1.mask | m2.mask, u64::MAX, "no gap");
}

#[test]
fn iter_full_mask_yields_each_lane_once() {
    let m = TileMask::new(
        Vector2 { x: 0i64, y: 0i64 },
        Vector2 { x: 1i64, y: 1i64 },
        &full_cover(),
    );
    assert_eq!(m.mask, u64::MAX);
    let mut it = m.iter();
    let mut seen = [false; 64];
    let mut count = 0u32;
    let mut last: i64 = -1;
    while let Some((idx, w)) = it.next() {
        let k = idx.0 as usize;
        assert!(k < 64);
        assert!(!seen[k], "lane yielded twice");
        assert!((k as i64) > last, "lanes must ascend");
        last = k as i64;
        seen[k] = true;
        count += 1;
        assert_eq!(w.u, UNIT / 4);
        assert_eq!(w.v, UNIT / 4);
        assert_eq!(w.w, UNIT / 2);
    }
    assert_eq!(count, 64);
    assert!(seen.iter().all(|&s| s));
}

#[test]
fn near_plane_rejects_in_mask() {
    let m0 = TileMask::new(
        Vector2 { x: 0i64, y: 0i64 },
        Vector2 { x: 1i64, y: 1i64 },
        &full_cover(),
    );
    let mut m = m0;
    let mut d = LaneGrid::splat(FAR);
    // uniform vertex depth -1.5: every lane interpolates past the near plane
    let z = Vector3 { x: -98304i64, y: -98304i64, z: -98304i64 };
    m.mask_with_depth(&z, &mut d);
    assert_eq!(m.mask, 0);
    for i in 0..64 {
        assert_eq!(d.get(i), FAR, "depth buffer must keep its value");
    }
}

fn group_colors_after_write(g: &TileGroup<i64>) -> Vec<i64> {
    let mut s: CollectSink<i64> = CollectSink::new();
    g.write(0, 0, &mut s);
    sink_colors(&s).iter().map(|r| r.2).collect()
}

#[test]
fn depth_monotonic_either_order() {
    let pos = Vector2 { x: 0i64, y: 0i64 };
    let scale = Vector2 { x: 1i64, y: 1i64 };
    let e = full_cover();
    let za = Vector3 { x: 32768i64, y: 32768i64, z: 32768i64 }; // depth 0.5
    let zb = Vector3 { x: 13107i64, y: 13107i64, z: 13107i64 }; // depth 0.2
    let shader = ReplaceShader;

    let mut g1: TileGroup<i64> = TileGroup::new(0);
    g1.raster(pos, scale, &za, &e, &flat(111), &shader);
    g1.raster(pos, scale, &zb, &e, &flat(222), &shader);
    assert!(group_colors_after_write(&g1).iter().all(|&c| c == 222));

    let mut g2: TileGroup<i64> = TileGroup::new(0);
    g2.raster(pos, scale, &zb, &e, &flat(222), &shader);
    g2.raster(pos, scale, &za, &e, &flat(111), &shader);
    assert!(group_colors_after_write(&g2).iter().all(|&c| c == 222));

    // a third triangle between the two depths must not overwrite either
    let zc = Vector3 { x: 19661i64, y: 19661i64, z: 19661i64 }; // depth 0.3
    g1.raster(pos, scale, &zc, &e, &flat(99), &shader);
    assert!(group_colors_after_write(&g1).iter().all(|&c| c == 222));
}

#[test]
fn equal_depth_later_triangle_wins() {
    // the depth test passes on "closer or equal", so at equal depth the
    // later submission's fragment is the one blended last
    let pos = Vector2 { x: 0i64, y: 0i64 };
    let scale = Vector2 { x: 1i64, y: 1i64 };
    let z = Vector3 { x: 32768i64, y: 32768i64, z: 32768i64 };
    let mut g: TileGroup<i64> = TileGroup::new(0);
    g.raster(pos, scale, &z, &full_cover(), &flat(1), &ReplaceShader);
    g.raster(pos, scale, &z, &full_cover(), &flat(2), &ReplaceShader);
    assert!(group_colors_after_write(&g).iter().all(|&c| c == 2));
}

#[test]
fn near_plane_leaves_group_unchanged() {
    let pos = Vector2 { x: 0i64, y: 0i64 };
    let scale = Vector2 { x: 1i64, y: 1i64 };
    let mut g: TileGroup<i64> = TileGroup::new(7);
    let z = Vector3 { x: -98304i64, y: -98304i64, z: -98304i64 }; // depth -1.5
    g.raster(pos, scale, &z, &full_cover(), &flat(55), &ReplaceShader);
    assert!(group_colors_after_write(&g).iter().all(|&c| c == 7));
}

#[test]
fn map_applies_pointwise_and_keeps_rest() {
    let pos = Vector2 { x: 0i64, y: 0i64 };
    let scale = Vector2 { x: 1i64, y: 1i64 };
    // triangle covering samples with x + y <= 32 of the 32x32 group
    let e = AffineEvaluator { u0: 0, ux: UNIT / 32, uy: 0, v0: 0, vx: 0, vy: UNIT / 32 };
    let mut src: TileGroup<i64> = TileGroup::new(5);
    let z = Vector3 { x: 32768i64, y: 32768i64, z: 32768i64 };
    src.raster(pos, scale, &z, &e, &flat(111), &ReplaceShader);

    let mut dst: TileGroup<i64> = TileGroup::new(0);
    dst.map(&src, &LevelClamp { level: 100 });

    let mut s: CollectSink<i64> = CollectSink::new();
    dst.write(0, 0, &mut s);
    for &(x, y, c) in s.log.iter() {
        let covered = x + y <= 32;
        let expect = if covered { 100 } else { 5 };
        assert_eq!(c, expect, "pixel ({}, {})", x, y);
    }
}

#[test]
fn write_round_trip_covers_every_pixel_once() {
    let g: TileGroup<i64> = TileGroup::new(7);
    let mut s: CollectSink<i64> = CollectSink::new();
    g.write(3, 5, &mut s);
    assert_eq!(s.log.len(), 1024);
    let mut seen = [[false; 32]; 32];
    for &(x, y, c) in s.log.iter() {
        assert_eq!(c, 7);
        assert!((3..35).contains(&x) && (5..37).contains(&y));
        let a = (x - 3) as usize;
        let b = (y - 5) as usize;
        assert!(!seen[a][b], "pixel written twice");
        seen[a][b] = true;
    }
}

#[test]
fn clear_twice_equals_clear_once() {
    let pos = Vector2 { x: 0i64, y: 0i64 };
    let scale = Vector2 { x: 1i64, y: 1i64 };
    let z = Vector3 { x: 32768i64, y: 32768i64, z: 32768i64 };
    let mut g1: TileGroup<i64> = TileGroup::new(0);
    g1.raster(pos, scale, &z, &full_cover(), &flat(42), &ReplaceShader);
    let mut g2 = g1;
    g1.clear(9);
    g2.clear(9);
    g2.clear(9);
    let mut s1: CollectSink<i64> = CollectSink::new();
    let mut s2: CollectSink<i64> = CollectSink::new();
    g1.write(0, 0, &mut s1);
    g2.write(0, 0, &mut s2);
    assert_eq!(s1.log, s2.log);
    // and a cleared buffer accepts a far-but-visible triangle again
    let zfar = Vector3 { x: 58982i64, y: 58982i64, z: 58982i64 }; // depth 0.9
    g1.raster(pos, scale, &zfar, &full_cover(), &flat(1), &ReplaceShader);
    assert!(group_colors_after_write(&g1).iter().all(|&c| c == 1));
}
