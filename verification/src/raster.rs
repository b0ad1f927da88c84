//! The shared rasterization contract: one interface for the 8x8 leaf tile
//! and for every square composition of four sub-units, so that the whole
//! hierarchy exposes one per-pixel semantics.

use vstd::prelude::*;
use cgmath::{Vector2, Vector3};
use genmesh::Triangle;
use crate::caps::{Barycentric, Interpolate, Fragment, Mapping, Put};
use crate::scalar::{FAR, EVAL_LIMIT, mag, inside, interp_depth, third_weight, depth_input_ok};

verus! {

/// A position/spacing pair whose whole `side`-wide sample grid stays
/// inside the evaluator's domain.
pub open spec fn raster_pos_ok(p: int, s: int, side: int) -> bool {
    mag(p) + side * mag(s) <= EVAL_LIMIT
}

/// What rasterizing one triangle does to the pixel at local coordinates
/// `(x, y)` of a unit placed at `pos` with per-pixel spacing `scale`:
/// if the sample point lies inside the triangle, its interpolated depth is
/// no farther than the stored one, and it passes the near plane, then the
/// depth is written and the shaded fragment is blended into the stored
/// color; otherwise both are untouched.
pub open spec fn raster_lane_post<B: Barycentric, T: Interpolate<O>, O, F: Fragment<O, P>, P>(
    bary: &B,
    pos: Vector2<i64>,
    scale: Vector2<i64>,
    z: &Vector3<i64>,
    t: &Triangle<T>,
    frag: &F,
    x: int,
    y: int,
    d0: int,
    c0: P,
    d1: int,
    c1: P,
) -> bool {
    let u = bary.u_point(pos.x + x * scale.x, pos.y + y * scale.y);
    let v = bary.v_point(pos.x + x * scale.x, pos.y + y * scale.y);
    let dep = interp_depth(u, v, z.x as int, z.y as int, z.z as int);
    if inside(u, v) && d0 - dep >= 0 && dep + FAR >= 0 {
        &&& d1 == dep
        &&& c1 == frag.blend_spec(c0, frag.fragment_spec(T::interpolate_spec(t, third_weight(u, v), u, v)))
    } else {
        &&& d1 == d0
        &&& c1 == c0
    }
}

/// A square rasterization unit: an 8x8 tile, or four smaller units
/// composed into a square of twice the side.
pub trait Raster<P: Copy>: Sized {
    /// The unit's side, in pixels.
    spec fn side_spec(&self) -> int;

    /// The unit's internal validity condition.
    spec fn wf(&self) -> bool;

    /// The stored depth of the pixel at local coordinates `(x, y)`.
    spec fn depth_at(&self, x: int, y: int) -> int;

    /// The stored color of the pixel at local coordinates `(x, y)`.
    spec fn color_at(&self, x: int, y: int) -> P;

    /// The triples one `write` at origin `(x, y)` pushes to a sink, in
    /// order.
    spec fn write_log(&self, x: int, y: int) -> Seq<(u32, u32, P)>;

    fn size(&self) -> (r: u32)
        requires
            self.wf(),
        ensures
            r == self.side_spec(),
    ;

    /// The bit mask aligning a pixel coordinate down to this unit's grid.
    fn mask(&self) -> (r: u32)
        requires
            self.wf(),
            1 <= self.side_spec() <= 0x8000,
        ensures
            r == 0xFFFF_FFFFu32 - (self.side_spec() - 1),
    {
        0xFFFF_FFFF - (self.size() - 1)
    }

    /// Rasterize one triangle over every pixel of the unit.
    fn raster<B: Barycentric, T: Interpolate<O>, O, F: Fragment<O, P>>(
        &mut self,
        pos: Vector2<i64>,
        scale: Vector2<i64>,
        z: &Vector3<i64>,
        bary: &B,
        t: &Triangle<T>,
        frag: &F,
    )
        requires
            old(self).wf(),
            bary.wf(),
            raster_pos_ok(pos.x as int, scale.x as int, old(self).side_spec()),
            raster_pos_ok(pos.y as int, scale.y as int, old(self).side_spec()),
            depth_input_ok(z.x as int),
            depth_input_ok(z.y as int),
            depth_input_ok(z.z as int),
        ensures
            final(self).wf(),
            final(self).side_spec() == old(self).side_spec(),
            forall|x: int, y: int|
                0 <= x < old(self).side_spec() && 0 <= y < old(self).side_spec() ==>
                #[trigger] raster_lane_post(bary, pos, scale, z, t, frag, x, y,
                    old(self).depth_at(x, y), old(self).color_at(x, y),
                    final(self).depth_at(x, y), final(self).color_at(x, y)),
    ;

    /// Reset every pixel: depth to the far plane, color to the fill.
    fn clear(&mut self, p: P)
        requires
            old(self).wf(),
        ensures
            final(self).wf(),
            final(self).side_spec() == old(self).side_spec(),
            forall|x: int, y: int|
                0 <= x < old(self).side_spec() && 0 <= y < old(self).side_spec() ==>
                #[trigger] final(self).depth_at(x, y) == FAR && final(self).color_at(x, y) == p,
    ;

    /// Push every pixel's color, at its global coordinates, to the sink.
    fn write<W: Put<P>>(&self, x: u32, y: u32, v: &mut W)
        requires
            self.wf(),
            x + self.side_spec() <= u32::MAX,
            y + self.side_spec() <= u32::MAX,
        ensures
            final(v).sink_view() == old(v).sink_view() + self.write_log(x as int, y as int),
    ;
}

/// Elementwise pixel conversion from a same-shaped unit of another pixel
/// type; depth buffers are untouched.
pub trait ApplyMapping<P: Copy, Src: Raster<S>, S: Copy>: Raster<P> {
    fn map<F: Mapping<S, P>>(&mut self, src: &Src, f: &F)
        requires
            old(self).wf(),
            src.wf(),
            old(self).side_spec() == src.side_spec(),
        ensures
            final(self).wf(),
            final(self).side_spec() == old(self).side_spec(),
            forall|x: int, y: int|
                0 <= x < old(self).side_spec() && 0 <= y < old(self).side_spec() ==>
                #[trigger] final(self).color_at(x, y) == f.map_spec(src.color_at(x, y)),
            forall|x: int, y: int|
                0 <= x < old(self).side_spec() && 0 <= y < old(self).side_spec() ==>
                #[trigger] final(self).depth_at(x, y) == old(self).depth_at(x, y),
    ;
}

} // verus!
