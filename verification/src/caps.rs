//! The capability contracts the core consumes: the barycentric evaluator,
//! attribute interpolation, fragment shading and blending, pixel mapping,
//! and the pixel sink.

use vstd::prelude::*;
use cgmath::Vector2;
use genmesh::Triangle;
use crate::grid::LaneGrid;
use crate::scalar::{EVAL_LIMIT, mag, weight_ok};

verus! {

/// The position of lane `i`'s sample along one axis: the tile's position
/// plus the lane's coordinate times the per-pixel spacing.
pub open spec fn sample_x(pos: Vector2<i64>, scale: Vector2<i64>, i: int) -> int {
    pos.x + (i % 8) * scale.x
}

pub open spec fn sample_y(pos: Vector2<i64>, scale: Vector2<i64>, i: int) -> int {
    pos.y + (i / 8) * scale.y
}

/// A position/spacing pair every 8x8 sample grid of which stays inside the
/// evaluator's domain.
pub open spec fn eval_pos_ok(p: int, s: int) -> bool {
    mag(p) + 8 * mag(s) <= EVAL_LIMIT
}

/// The three weights of one lane, handed to attribute interpolation.
#[derive(Clone, Copy)]
pub struct BaryWeights {
    /// The weight of the first vertex, `UNIT - u - v`.
    pub w: i64,
    /// The weight of the second vertex.
    pub u: i64,
    /// The weight of the third vertex.
    pub v: i64,
}

/// A barycentric-coordinate evaluator for one triangle: a pure function
/// from a sample position to the second and third vertices' weights.
pub trait Barycentric: Sized {
    /// The evaluator's own validity condition.
    spec fn wf(&self) -> bool;

    /// The `u` weight at the sample position `(x, y)`.
    spec fn u_point(&self, x: int, y: int) -> int;

    /// The `v` weight at the sample position `(x, y)`.
    spec fn v_point(&self, x: int, y: int) -> int;

    /// Evaluate both weights over the 8x8 grid of samples at `pos` with
    /// spacing `scale`: lane `i` samples the point
    /// `(pos.x + (i % 8) * scale.x, pos.y + (i / 8) * scale.y)`.
    fn weights(&self, pos: Vector2<i64>, scale: Vector2<i64>) -> (r: (LaneGrid, LaneGrid))
        requires
            self.wf(),
            eval_pos_ok(pos.x as int, scale.x as int),
            eval_pos_ok(pos.y as int, scale.y as int),
        ensures
            forall|i: int| 0 <= i < 64 ==>
                #[trigger] r.0@[i] == self.u_point(sample_x(pos, scale, i), sample_y(pos, scale, i)),
            forall|i: int| 0 <= i < 64 ==>
                #[trigger] r.1@[i] == self.v_point(sample_x(pos, scale, i), sample_y(pos, scale, i)),
            forall|i: int| 0 <= i < 64 ==>
                weight_ok(#[trigger] r.0@[i] as int) && weight_ok(r.1@[i] as int),
    ;
}

/// Interpolation of a triangle's per-vertex attribute payload at one lane's
/// barycentric weights.
pub trait Interpolate<O>: Sized {
    /// What interpolating at weights `(w, u, v)` yields.
    spec fn interpolate_spec(t: &Triangle<Self>, w: int, u: int, v: int) -> O;

    fn interpolate(t: &Triangle<Self>, wts: BaryWeights) -> (r: O)
        ensures
            r == Self::interpolate_spec(t, wts.w as int, wts.u as int, wts.v as int),
    ;
}

/// Fragment shading: turns an interpolated attribute into a pixel value,
/// and blends a new pixel value into the stored one.
pub trait Fragment<O, P> {
    /// What shading an interpolated value yields.
    spec fn fragment_spec(&self, o: O) -> P;

    /// What blending a new value into a stored one yields.
    spec fn blend_spec(&self, stored: P, fresh: P) -> P;

    fn fragment(&self, o: O) -> (r: P)
        ensures
            r == self.fragment_spec(o),
    ;

    fn blend(&self, stored: P, fresh: P) -> (r: P)
        ensures
            r == self.blend_spec(stored, fresh),
    ;
}

/// A pure pixel-to-pixel function, applied elementwise by `map`.
pub trait Mapping<S, P> {
    /// What the mapping yields on one source pixel.
    spec fn map_spec(&self, s: S) -> P;

    fn mapping(&self, s: S) -> (r: P)
        ensures
            r == self.map_spec(s),
    ;
}

/// A pixel sink: accepts `(x, y, pixel)` triples. Its view is the record
/// of everything accepted so far, in order; each sink defines its own
/// coordinate convention.
pub trait Put<P> {
    /// The triples accepted so far.
    spec fn sink_view(&self) -> Seq<(u32, u32, P)>;

    fn put(&mut self, x: u32, y: u32, v: P)
        ensures
            final(self).sink_view() == old(self).sink_view().push((x, y, v)),
    ;
}

} // verus!
