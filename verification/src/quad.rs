//! A fixed 2x2 composition of four sub-units of one kind. Nesting quads
//! over tiles builds larger square rasterization units; every method is
//! structural delegation to the four children.

use vstd::prelude::*;
use cgmath::{Vector2, Vector3};
use genmesh::Triangle;
use crate::caps::{Barycentric, Interpolate, Fragment, Mapping, Put};
use crate::raster::{Raster, ApplyMapping, raster_lane_post};
use crate::scalar::{EVAL_LIMIT, mag};

verus! {

/// Four children, logically 2x2: `q0` top-left, `q1` top-right, `q2`
/// bottom-left, `q3` bottom-right.
#[derive(Clone, Copy)]
pub struct Quad<T> {
    pub q0: T,
    pub q1: T,
    pub q2: T,
    pub q3: T,
}

impl<T: Copy> Quad<T> {
    /// Four copies of one child.
    pub fn new(t: T) -> (r: Quad<T>)
        ensures
            r.q0 == t,
            r.q1 == t,
            r.q2 == t,
            r.q3 == t,
    {
        Quad { q0: t, q1: t, q2: t, q3: t }
    }
}

/// Splitting a unit's extent in half keeps each child's sample grid, at
/// either offset, inside the evaluator's domain.
proof fn lemma_half_extent(p: int, sc: int, s: int)
    by (nonlinear_arith)
    requires
        s >= 1,
        mag(p) + 2 * s * mag(sc) <= EVAL_LIMIT,
    ensures
        mag(s * sc) == s * mag(sc),
        mag(p) + s * mag(sc) <= EVAL_LIMIT,
        mag(p + s * sc) + s * mag(sc) <= EVAL_LIMIT,
{
}

impl<P: Copy, I: Raster<P>> Raster<P> for Quad<I> {
    open spec fn side_spec(&self) -> int {
        2 * self.q0.side_spec()
    }

    open spec fn wf(&self) -> bool {
        &&& self.q0.wf()
        &&& self.q1.wf()
        &&& self.q2.wf()
        &&& self.q3.wf()
        &&& self.q1.side_spec() == self.q0.side_spec()
        &&& self.q2.side_spec() == self.q0.side_spec()
        &&& self.q3.side_spec() == self.q0.side_spec()
        &&& 1 <= self.q0.side_spec() <= 16384
    }

    open spec fn depth_at(&self, x: int, y: int) -> int {
        let s = self.q0.side_spec();
        if x < s {
            if y < s {
                self.q0.depth_at(x, y)
            } else {
                self.q2.depth_at(x, y - s)
            }
        } else {
            if y < s {
                self.q1.depth_at(x - s, y)
            } else {
                self.q3.depth_at(x - s, y - s)
            }
        }
    }

    open spec fn color_at(&self, x: int, y: int) -> P {
        let s = self.q0.side_spec();
        if x < s {
            if y < s {
                self.q0.color_at(x, y)
            } else {
                self.q2.color_at(x, y - s)
            }
        } else {
            if y < s {
                self.q1.color_at(x - s, y)
            } else {
                self.q3.color_at(x - s, y - s)
            }
        }
    }

    open spec fn write_log(&self, x: int, y: int) -> Seq<(u32, u32, P)> {
        let s = self.q0.side_spec();
        self.q0.write_log(x, y) + self.q1.write_log(x + s, y)
            + self.q2.write_log(x, y + s) + self.q3.write_log(x + s, y + s)
    }

    fn size(&self) -> (r: u32) {
        2 * self.q0.size()
    }

    fn raster<B: Barycentric, T: Interpolate<O>, O, F: Fragment<O, P>>(
        &mut self,
        pos: Vector2<i64>,
        scale: Vector2<i64>,
        z: &Vector3<i64>,
        bary: &B,
        t: &Triangle<T>,
        frag: &F,
    ) {
        let ghost s = self.q0.side_spec();
        proof {
            lemma_half_extent(pos.x as int, scale.x as int, s);
            lemma_half_extent(pos.y as int, scale.y as int, s);
        }
        let cs = self.q0.size();
        let tx = (cs as i64) * scale.x;
        let ty = (cs as i64) * scale.y;
        let p1 = Vector2 { x: pos.x + tx, y: pos.y };
        let p2 = Vector2 { x: pos.x, y: pos.y + ty };
        let p3 = Vector2 { x: pos.x + tx, y: pos.y + ty };
        let ghost g0 = *self;
        self.q0.raster(pos, scale, z, bary, t, frag);
        self.q1.raster(p1, scale, z, bary, t, frag);
        self.q2.raster(p2, scale, z, bary, t, frag);
        self.q3.raster(p3, scale, z, bary, t, frag);
        proof {
            assert forall|x: int, y: int| 0 <= x < 2 * s && 0 <= y < 2 * s implies
                #[trigger] raster_lane_post(bary, pos, scale, z, t, frag, x, y,
                    g0.depth_at(x, y), g0.color_at(x, y),
                    self.depth_at(x, y), self.color_at(x, y)) by {
                if x < s && y < s {
                    assert(raster_lane_post(bary, pos, scale, z, t, frag, x, y,
                        g0.q0.depth_at(x, y), g0.q0.color_at(x, y),
                        self.q0.depth_at(x, y), self.q0.color_at(x, y)));
                } else if x >= s && y < s {
                    assert(pos.x + s * scale.x + (x - s) * scale.x == pos.x + x * scale.x)
                        by (nonlinear_arith);
                    assert(raster_lane_post(bary, p1, scale, z, t, frag, x - s, y,
                        g0.q1.depth_at(x - s, y), g0.q1.color_at(x - s, y),
                        self.q1.depth_at(x - s, y), self.q1.color_at(x - s, y)));
                } else if x < s && y >= s {
                    assert(pos.y + s * scale.y + (y - s) * scale.y == pos.y + y * scale.y)
                        by (nonlinear_arith);
                    assert(raster_lane_post(bary, p2, scale, z, t, frag, x, y - s,
                        g0.q2.depth_at(x, y - s), g0.q2.color_at(x, y - s),
                        self.q2.depth_at(x, y - s), self.q2.color_at(x, y - s)));
                } else {
                    assert(pos.x + s * scale.x + (x - s) * scale.x == pos.x + x * scale.x)
                        by (nonlinear_arith);
                    assert(pos.y + s * scale.y + (y - s) * scale.y == pos.y + y * scale.y)
                        by (nonlinear_arith);
                    assert(raster_lane_post(bary, p3, scale, z, t, frag, x - s, y - s,
                        g0.q3.depth_at(x - s, y - s), g0.q3.color_at(x - s, y - s),
                        self.q3.depth_at(x - s, y - s), self.q3.color_at(x - s, y - s)));
                }
            }
        }
    }

    fn clear(&mut self, p: P) {
        self.q0.clear(p);
        self.q1.clear(p);
        self.q2.clear(p);
        self.q3.clear(p);
    }

    fn write<W: Put<P>>(&self, x: u32, y: u32, v: &mut W) {
        let ghost base = v.sink_view();
        let cs = self.q0.size();
        self.q0.write(x, y, v);
        self.q1.write(x + cs, y, v);
        self.q2.write(x, y + cs, v);
        self.q3.write(x + cs, y + cs, v);
        proof {
            let s = self.q0.side_spec();
            assert(v.sink_view() =~= base + (self.q0.write_log(x as int, y as int)
                + self.q1.write_log(x as int + s, y as int)
                + self.q2.write_log(x as int, y as int + s)
                + self.q3.write_log(x as int + s, y as int + s)));
        }
    }
}

impl<P: Copy, S2: Copy, I: ApplyMapping<P, I2, S2>, I2: Raster<S2>> ApplyMapping<P, Quad<I2>, S2>
    for Quad<I> {
    fn map<F: Mapping<S2, P>>(&mut self, src: &Quad<I2>, f: &F) {
        self.q0.map(&src.q0, f);
        self.q1.map(&src.q1, f);
        self.q2.map(&src.q2, f);
        self.q3.map(&src.q3, f);
    }
}

} // verus!
