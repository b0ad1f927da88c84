//! The core's cross-call guarantees, stated and proved over the same spec
//! functions the public contracts use.

use vstd::prelude::*;
use cgmath::{Vector2, Vector3};
use genmesh::Triangle;
use crate::caps::{Barycentric, Interpolate, Fragment};
use crate::group::TileGroup;
use crate::quad::Quad;
use crate::raster::{Raster, raster_lane_post};
use crate::scalar::{FAR, inside, interp_depth, third_weight};
use crate::tile::Tile;

verus! {

/// Clearing is idempotent: the observable state after `clear(p)` is a
/// function of the fill alone, so any two groups in that state agree on
/// every pixel's depth and color.
pub proof fn lemma_clear_idempotent<P: Copy>(a: TileGroup<P>, b: TileGroup<P>, p: P)
    requires
        a.cleared(p),
        b.cleared(p),
    ensures
        forall|x: int, y: int| #![trigger a.depth_at(x, y)] #![trigger a.color_at(x, y)]
            0 <= x < 32 && 0 <= y < 32 ==>
            a.depth_at(x, y) == b.depth_at(x, y) && a.color_at(x, y) == b.color_at(x, y),
{
}

/// Near-plane rejection: a pixel whose interpolated depth lies beyond the
/// near plane (depth plus one negative) keeps its depth and its color,
/// whatever else holds of the triangle there.
pub proof fn lemma_near_plane_rejects<B: Barycentric, T: Interpolate<O>, O, F: Fragment<O, P>, P>(
    bary: &B,
    pos: Vector2<i64>,
    scale: Vector2<i64>,
    z: &Vector3<i64>,
    t: &Triangle<T>,
    frag: &F,
    x: int,
    y: int,
    d0: int,
    c0: P,
    d1: int,
    c1: P,
)
    requires
        raster_lane_post(bary, pos, scale, z, t, frag, x, y, d0, c0, d1, c1),
        ({
            let u = bary.u_point(pos.x + x * scale.x, pos.y + y * scale.y);
            let v = bary.v_point(pos.x + x * scale.x, pos.y + y * scale.y);
            interp_depth(u, v, z.x as int, z.y as int, z.z as int) + FAR < 0
        }),
    ensures
        d1 == d0,
        c1 == c0,
{
}

/// Depth resolution, nearer triangle submitted second: if a pixel is
/// covered by triangle A (which passes the depth test against the initial
/// depth) and then by a strictly nearer triangle B, the pixel ends with
/// B's depth, and with B's fragment as the last one blended in.
pub proof fn lemma_nearer_wins_after<
    BA: Barycentric, BB: Barycentric,
    TA: Interpolate<OA>, OA, TB: Interpolate<OB>, OB,
    FA: Fragment<OA, P>, FB: Fragment<OB, P>, P,
>(
    bary_a: &BA, bary_b: &BB,
    pos: Vector2<i64>, scale: Vector2<i64>,
    za: &Vector3<i64>, zb: &Vector3<i64>,
    ta: &Triangle<TA>, tb: &Triangle<TB>,
    fa: &FA, fb: &FB,
    x: int, y: int,
    d0: int, c0: P, d1: int, c1: P, d2: int, c2: P,
)
    requires
        raster_lane_post(bary_a, pos, scale, za, ta, fa, x, y, d0, c0, d1, c1),
        raster_lane_post(bary_b, pos, scale, zb, tb, fb, x, y, d1, c1, d2, c2),
        ({
            let ua = bary_a.u_point(pos.x + x * scale.x, pos.y + y * scale.y);
            let va = bary_a.v_point(pos.x + x * scale.x, pos.y + y * scale.y);
            let ub = bary_b.u_point(pos.x + x * scale.x, pos.y + y * scale.y);
            let vb = bary_b.v_point(pos.x + x * scale.x, pos.y + y * scale.y);
            let dep_a = interp_depth(ua, va, za.x as int, za.y as int, za.z as int);
            let dep_b = interp_depth(ub, vb, zb.x as int, zb.y as int, zb.z as int);
            &&& inside(ua, va)
            &&& inside(ub, vb)
            &&& dep_a <= d0
            &&& dep_b < dep_a
            &&& dep_a + FAR >= 0
            &&& dep_b + FAR >= 0
        }),
    ensures
        ({
            let ub = bary_b.u_point(pos.x + x * scale.x, pos.y + y * scale.y);
            let vb = bary_b.v_point(pos.x + x * scale.x, pos.y + y * scale.y);
            let dep_b = interp_depth(ub, vb, zb.x as int, zb.y as int, zb.z as int);
            &&& d2 == dep_b
            &&& c2 == fb.blend_spec(c1, fb.fragment_spec(
                TB::interpolate_spec(tb, third_weight(ub, vb), ub, vb)))
        }),
{
}

/// Depth resolution, nearer triangle submitted first: if a pixel takes
/// the nearer triangle B's depth and a strictly farther triangle A is
/// rasterized afterwards, A fails the depth test there: the pixel keeps
/// B's depth and B's color.
pub proof fn lemma_farther_loses_after<
    BA: Barycentric, BB: Barycentric,
    TA: Interpolate<OA>, OA, TB: Interpolate<OB>, OB,
    FA: Fragment<OA, P>, FB: Fragment<OB, P>, P,
>(
    bary_a: &BA, bary_b: &BB,
    pos: Vector2<i64>, scale: Vector2<i64>,
    za: &Vector3<i64>, zb: &Vector3<i64>,
    ta: &Triangle<TA>, tb: &Triangle<TB>,
    fa: &FA, fb: &FB,
    x: int, y: int,
    d0: int, c0: P, d1: int, c1: P, d2: int, c2: P,
)
    requires
        raster_lane_post(bary_b, pos, scale, zb, tb, fb, x, y, d0, c0, d1, c1),
        raster_lane_post(bary_a, pos, scale, za, ta, fa, x, y, d1, c1, d2, c2),
        ({
            let ua = bary_a.u_point(pos.x + x * scale.x, pos.y + y * scale.y);
            let va = bary_a.v_point(pos.x + x * scale.x, pos.y + y * scale.y);
            let ub = bary_b.u_point(pos.x + x * scale.x, pos.y + y * scale.y);
            let vb = bary_b.v_point(pos.x + x * scale.x, pos.y + y * scale.y);
            let dep_a = interp_depth(ua, va, za.x as int, za.y as int, za.z as int);
            let dep_b = interp_depth(ub, vb, zb.x as int, zb.y as int, zb.z as int);
            &&& inside(ub, vb)
            &&& dep_b <= d0
            &&& dep_b < dep_a
            &&& dep_b + FAR >= 0
        }),
    ensures
        ({
            let ub = bary_b.u_point(pos.x + x * scale.x, pos.y + y * scale.y);
            let vb = bary_b.v_point(pos.x + x * scale.x, pos.y + y * scale.y);
            let dep_b = interp_depth(ub, vb, zb.x as int, zb.y as int, zb.z as int);
            &&& d2 == dep_b
            &&& c2 == c1
            &&& c1 == fb.blend_spec(c0, fb.fragment_spec(
                TB::interpolate_spec(tb, third_weight(ub, vb), ub, vb)))
        }),
{
}

/// The log holds the pixel `(cx, cy)` with color `p`.
pub open spec fn logs_pixel<P>(s: Seq<(u32, u32, P)>, cx: int, cy: int, p: P) -> bool {
    exists|k: int| 0 <= k < s.len() && #[trigger] s[k] == (((cx as u32), (cy as u32), p))
}

/// A write log that covers the square of the given side at `(x, y)`
/// exactly: one record per pixel of the square, each with color `p`,
/// no pixel twice, none outside.
pub open spec fn square_log<P>(s: Seq<(u32, u32, P)>, x: int, y: int, side: int, p: P) -> bool {
    &&& s.len() == side * side
    &&& (forall|k: int| 0 <= k < s.len() ==> ({
        let r = #[trigger] s[k];
        &&& r.2 == p
        &&& x <= r.0 < x + side
        &&& y <= r.1 < y + side
    }))
    &&& (forall|k1: int, k2: int| #![trigger s[k1], s[k2]] 0 <= k1 < k2 < s.len() ==>
        (s[k1].0 != s[k2].0 || s[k1].1 != s[k2].1))
    &&& (forall|cx: int, cy: int| x <= cx < x + side && y <= cy < y + side ==>
        #[trigger] logs_pixel(s, cx, cy, p))
}

proof fn lemma_tile_log<P: Copy>(t: Tile<P>, p: P, x: int, y: int)
    requires
        forall|a: int, b: int| 0 <= a < 8 && 0 <= b < 8 ==> #[trigger] t.color_at(a, b) == p,
        0 <= x,
        0 <= y,
        x + 8 <= u32::MAX,
        y + 8 <= u32::MAX,
    ensures
        square_log(t.write_log(x, y), x, y, 8, p),
{
    let s = t.write_log(x, y);
    assert forall|k: int| 0 <= k < s.len() implies ({
        let r = #[trigger] s[k];
        &&& r.2 == p
        &&& x <= r.0 < x + 8
        &&& y <= r.1 < y + 8
    }) by {
        assert(t.color_at(k % 8, k / 8) == p);
        assert(8 * (k / 8) + k % 8 == k);
    }
    assert forall|k1: int, k2: int| #![trigger s[k1], s[k2]] 0 <= k1 < k2 < s.len() implies
        (s[k1].0 != s[k2].0 || s[k1].1 != s[k2].1) by {
        if s[k1].0 == s[k2].0 && s[k1].1 == s[k2].1 {
            assert(k1 % 8 == k2 % 8 && k1 / 8 == k2 / 8);
            assert(8 * (k1 / 8) + k1 % 8 == k1);
            assert(8 * (k2 / 8) + k2 % 8 == k2);
            assert(false);
        }
    }
    assert forall|cx: int, cy: int| x <= cx < x + 8 && y <= cy < y + 8 implies
        #[trigger] logs_pixel(s, cx, cy, p) by {
        let a = cx - x;
        let b = cy - y;
        let k = 8 * b + a;
        assert(k % 8 == a && k / 8 == b);
        assert(t.color_at(a, b) == p);
        assert(s[k] == (((cx as u32), (cy as u32), p)));
    }
}

proof fn lemma_square_compose<P: Copy>(
    s0: Seq<(u32, u32, P)>,
    s1: Seq<(u32, u32, P)>,
    s2: Seq<(u32, u32, P)>,
    s3: Seq<(u32, u32, P)>,
    x: int,
    y: int,
    side: int,
    p: P,
)
    requires
        1 <= side,
        square_log(s0, x, y, side, p),
        square_log(s1, x + side, y, side, p),
        square_log(s2, x, y + side, side, p),
        square_log(s3, x + side, y + side, side, p),
    ensures
        square_log(s0 + s1 + s2 + s3, x, y, 2 * side, p),
{
    let s = s0 + s1 + s2 + s3;
    let n = side * side;
    assert(side * side >= 1) by (nonlinear_arith)
        requires
            side >= 1,
    ;
    assert(4 * (side * side) == (2 * side) * (2 * side)) by (nonlinear_arith);
    assert(s.len() == 4 * n);
    assert forall|k: int| 0 <= k < s.len() implies ({
        let r = #[trigger] s[k];
        &&& r.2 == p
        &&& x <= r.0 < x + 2 * side
        &&& y <= r.1 < y + 2 * side
    }) by {
        if k < n {
            assert(s[k] == s0[k]);
        } else if k < 2 * n {
            assert(s[k] == s1[k - n]);
        } else if k < 3 * n {
            assert(s[k] == s2[k - 2 * n]);
        } else {
            assert(s[k] == s3[k - 3 * n]);
        }
    }
    assert forall|k1: int, k2: int| #![trigger s[k1], s[k2]] 0 <= k1 < k2 < s.len() implies
        (s[k1].0 != s[k2].0 || s[k1].1 != s[k2].1) by {
        let r1 = s[k1];
        let r2 = s[k2];
        if k1 < n {
            assert(r1 == s0[k1]);
        } else if k1 < 2 * n {
            assert(r1 == s1[k1 - n]);
        } else if k1 < 3 * n {
            assert(r1 == s2[k1 - 2 * n]);
        } else {
            assert(r1 == s3[k1 - 3 * n]);
        }
        if k2 < n {
            assert(r2 == s0[k2]);
        } else if k2 < 2 * n {
            assert(r2 == s1[k2 - n]);
        } else if k2 < 3 * n {
            assert(r2 == s2[k2 - 2 * n]);
        } else {
            assert(r2 == s3[k2 - 3 * n]);
        }
    }
    assert forall|cx: int, cy: int| x <= cx < x + 2 * side && y <= cy < y + 2 * side implies
        #[trigger] logs_pixel(s, cx, cy, p) by {
        let rec = ((cx as u32), (cy as u32), p);
        if cx < x + side && cy < y + side {
            assert(logs_pixel(s0, cx, cy, p));
            let k = choose|k: int| 0 <= k < s0.len() && s0[k] == rec;
            assert(s[k] == rec);
        } else if cx >= x + side && cy < y + side {
            assert(logs_pixel(s1, cx, cy, p));
            let k = choose|k: int| 0 <= k < s1.len() && s1[k] == rec;
            assert(s[n + k] == rec);
        } else if cx < x + side && cy >= y + side {
            assert(logs_pixel(s2, cx, cy, p));
            let k = choose|k: int| 0 <= k < s2.len() && s2[k] == rec;
            assert(s[2 * n + k] == rec);
        } else {
            assert(logs_pixel(s3, cx, cy, p));
            let k = choose|k: int| 0 <= k < s3.len() && s3[k] == rec;
            assert(s[3 * n + k] == rec);
        }
    }
}

proof fn lemma_quad_tile_log<P: Copy>(q: Quad<Tile<P>>, p: P, x: int, y: int)
    requires
        forall|a: int, b: int| 0 <= a < 16 && 0 <= b < 16 ==> #[trigger] q.color_at(a, b) == p,
        0 <= x,
        0 <= y,
        x + 16 <= u32::MAX,
        y + 16 <= u32::MAX,
    ensures
        square_log(q.write_log(x, y), x, y, 16, p),
{
    assert forall|a: int, b: int| 0 <= a < 8 && 0 <= b < 8 implies
        #[trigger] q.q0.color_at(a, b) == p by {
        assert(q.color_at(a, b) == p);
    }
    assert forall|a: int, b: int| 0 <= a < 8 && 0 <= b < 8 implies
        #[trigger] q.q1.color_at(a, b) == p by {
        assert(q.color_at(a + 8, b) == p);
    }
    assert forall|a: int, b: int| 0 <= a < 8 && 0 <= b < 8 implies
        #[trigger] q.q2.color_at(a, b) == p by {
        assert(q.color_at(a, b + 8) == p);
    }
    assert forall|a: int, b: int| 0 <= a < 8 && 0 <= b < 8 implies
        #[trigger] q.q3.color_at(a, b) == p by {
        assert(q.color_at(a + 8, b + 8) == p);
    }
    lemma_tile_log(q.q0, p, x, y);
    lemma_tile_log(q.q1, p, x + 8, y);
    lemma_tile_log(q.q2, p, x, y + 8);
    lemma_tile_log(q.q3, p, x + 8, y + 8);
    lemma_square_compose(
        q.q0.write_log(x, y),
        q.q1.write_log(x + 8, y),
        q.q2.write_log(x, y + 8),
        q.q3.write_log(x + 8, y + 8),
        x, y, 8, p,
    );
}

/// Write round-trip: writing a group in the cleared-to-`p` state pushes
/// exactly one record per pixel of its 32x32 square, each with color `p`,
/// no pixel twice, none outside.
pub proof fn lemma_write_round_trip<P: Copy>(g: TileGroup<P>, p: P, x: int, y: int)
    requires
        g.cleared(p),
        0 <= x,
        0 <= y,
        x + 32 <= u32::MAX,
        y + 32 <= u32::MAX,
    ensures
        square_log(g.write_log(x, y), x, y, 32, p),
{
    assert forall|a: int, b: int| 0 <= a < 16 && 0 <= b < 16 implies
        #[trigger] g.tiles.q0.color_at(a, b) == p by {
        assert(g.depth_at(a, b) == FAR);
        assert(g.color_at(a, b) == p);
    }
    assert forall|a: int, b: int| 0 <= a < 16 && 0 <= b < 16 implies
        #[trigger] g.tiles.q1.color_at(a, b) == p by {
        assert(g.depth_at(a + 16, b) == FAR);
        assert(g.color_at(a + 16, b) == p);
    }
    assert forall|a: int, b: int| 0 <= a < 16 && 0 <= b < 16 implies
        #[trigger] g.tiles.q2.color_at(a, b) == p by {
        assert(g.depth_at(a, b + 16) == FAR);
        assert(g.color_at(a, b + 16) == p);
    }
    assert forall|a: int, b: int| 0 <= a < 16 && 0 <= b < 16 implies
        #[trigger] g.tiles.q3.color_at(a, b) == p by {
        assert(g.depth_at(a + 16, b + 16) == FAR);
        assert(g.color_at(a + 16, b + 16) == p);
    }
    lemma_quad_tile_log(g.tiles.q0, p, x, y);
    lemma_quad_tile_log(g.tiles.q1, p, x + 16, y);
    lemma_quad_tile_log(g.tiles.q2, p, x, y + 16);
    lemma_quad_tile_log(g.tiles.q3, p, x + 16, y + 16);
    lemma_square_compose(
        g.tiles.q0.write_log(x, y),
        g.tiles.q1.write_log(x + 16, y),
        g.tiles.q2.write_log(x, y + 16),
        g.tiles.q3.write_log(x + 16, y + 16),
        x, y, 16, p,
    );
}

} // verus!
