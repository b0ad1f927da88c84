//! The public facade: one 32x32-pixel macro-tile, a 2x2 quad of 2x2 quads
//! of 8x8 tiles, exposing rasterize/clear/write/map without revealing the
//! recursive structure.

use vstd::prelude::*;
use cgmath::{Vector2, Vector3};
use genmesh::Triangle;
use crate::caps::{Barycentric, Interpolate, Fragment, Mapping, Put};
use crate::quad::Quad;
use crate::raster::{Raster, ApplyMapping, raster_lane_post, raster_pos_ok};
use crate::scalar::{FAR, depth_input_ok};
use crate::tile::Tile;

verus! {

/// A 32x32-pixel rasterization unit: the unit of work a caller owns.
#[derive(Clone, Copy)]
pub struct TileGroup<P> {
    pub tiles: Quad<Quad<Tile<P>>>,
}

impl<P: Copy> TileGroup<P> {
    /// The group's internal validity condition.
    pub open spec fn wf(&self) -> bool {
        self.tiles.wf()
    }

    /// The stored depth of the pixel at local coordinates `(x, y)`.
    pub open spec fn depth_at(&self, x: int, y: int) -> int {
        self.tiles.depth_at(x, y)
    }

    /// The stored color of the pixel at local coordinates `(x, y)`.
    pub open spec fn color_at(&self, x: int, y: int) -> P {
        self.tiles.color_at(x, y)
    }

    /// The triples one `write` at origin `(x, y)` pushes, in order.
    pub open spec fn write_log(&self, x: int, y: int) -> Seq<(u32, u32, P)> {
        self.tiles.write_log(x, y)
    }

    /// Every pixel sits at the far plane with the fill color `p`: the
    /// observable state `clear(p)` leaves behind, whatever held before.
    pub open spec fn cleared(&self, p: P) -> bool {
        forall|x: int, y: int| 0 <= x < 32 && 0 <= y < 32 ==>
            #[trigger] self.depth_at(x, y) == FAR && self.color_at(x, y) == p
    }

    /// A fresh group, as if cleared to `p`.
    pub fn new(p: P) -> (r: TileGroup<P>)
        ensures
            r.wf(),
            r.cleared(p),
    {
        let t = Tile::new(p);
        let r = TileGroup { tiles: Quad::new(Quad::new(t)) };
        proof {
            assert forall|x: int, y: int| 0 <= x < 32 && 0 <= y < 32 implies
                #[trigger] r.depth_at(x, y) == FAR && r.color_at(x, y) == p by {
                assert(t.depth_at(x % 8, y % 8) == FAR && t.color_at(x % 8, y % 8) == p);
            }
        }
        r
    }

    /// Rasterize one triangle over the whole group: each pixel whose
    /// sample lies inside the triangle, passes the depth test against its
    /// stored depth and the near plane, takes the interpolated depth and
    /// the shaded, blended fragment; every other pixel is untouched.
    pub fn raster<B: Barycentric, T: Interpolate<O>, O, F: Fragment<O, P>>(
        &mut self,
        pos: Vector2<i64>,
        scale: Vector2<i64>,
        z: &Vector3<i64>,
        bary: &B,
        t: &Triangle<T>,
        frag: &F,
    )
        requires
            old(self).wf(),
            bary.wf(),
            raster_pos_ok(pos.x as int, scale.x as int, 32),
            raster_pos_ok(pos.y as int, scale.y as int, 32),
            depth_input_ok(z.x as int),
            depth_input_ok(z.y as int),
            depth_input_ok(z.z as int),
        ensures
            final(self).wf(),
            forall|x: int, y: int| 0 <= x < 32 && 0 <= y < 32 ==>
                #[trigger] raster_lane_post(bary, pos, scale, z, t, frag, x, y,
                    old(self).depth_at(x, y), old(self).color_at(x, y),
                    final(self).depth_at(x, y), final(self).color_at(x, y)),
    {
        self.tiles.raster(pos, scale, z, bary, t, frag);
    }

    /// Reset every pixel: depth to the far plane, color to `p`.
    pub fn clear(&mut self, p: P)
        requires
            old(self).wf(),
        ensures
            final(self).wf(),
            final(self).cleared(p),
    {
        Raster::clear(&mut self.tiles, p);
    }

    /// Push every pixel's color at its global coordinates to the sink:
    /// exactly the group's write log, appended to whatever the sink held.
    pub fn write<W: Put<P>>(&self, x: u32, y: u32, v: &mut W)
        requires
            self.wf(),
            x + 32 <= u32::MAX,
            y + 32 <= u32::MAX,
        ensures
            final(v).sink_view() == old(v).sink_view() + self.write_log(x as int, y as int),
    {
        self.tiles.write(x, y, v);
    }

    /// Derive this group's colors elementwise from a same-shaped source:
    /// pixel by pixel the mapping of the source's color. Depths are
    /// untouched.
    pub fn map<S2: Copy, F: Mapping<S2, P>>(&mut self, src: &TileGroup<S2>, f: &F)
        requires
            old(self).wf(),
            src.wf(),
        ensures
            final(self).wf(),
            forall|x: int, y: int| 0 <= x < 32 && 0 <= y < 32 ==>
                #[trigger] final(self).color_at(x, y) == f.map_spec(src.color_at(x, y)),
            forall|x: int, y: int| 0 <= x < 32 && 0 <= y < 32 ==>
                #[trigger] final(self).depth_at(x, y) == old(self).depth_at(x, y),
    {
        self.tiles.map(&src.tiles, f);
    }
}

} // verus!
