//! Ready-made capability implementations: an affine barycentric evaluator,
//! flat attribute interpolation, an overwriting shader, a clamping pixel
//! mapping, and a recording sink.

use vstd::prelude::*;
use cgmath::Vector2;
use genmesh::Triangle;
use crate::caps::{Barycentric, BaryWeights, Interpolate, Fragment, Mapping, Put, sample_x, sample_y};
use crate::grid::LaneGrid;
use crate::scalar::{EVAL_LIMIT, WEIGHT_LIMIT, mag, weight_ok};

verus! {

/// Bound on the magnitude of an affine evaluator's coefficients.
pub const COEFF_LIMIT: i64 = 1048576;

/// A weight pinned into the evaluator's admissible range.
pub open spec fn clamp_weight(t: int) -> int {
    if t > WEIGHT_LIMIT {
        WEIGHT_LIMIT as int
    } else if t < -WEIGHT_LIMIT {
        -WEIGHT_LIMIT as int
    } else {
        t
    }
}

proof fn lemma_sample_bound(p: int, s: int, k: int)
    by (nonlinear_arith)
    requires
        0 <= k <= 8,
        mag(p) + 8 * mag(s) <= EVAL_LIMIT,
    ensures
        mag(p + k * s) <= EVAL_LIMIT,
{
}

proof fn lemma_affine_term(c: int, w: int)
    by (nonlinear_arith)
    requires
        mag(c) <= COEFF_LIMIT,
        mag(w) <= EVAL_LIMIT,
    ensures
        mag(c * w) <= COEFF_LIMIT * EVAL_LIMIT,
{
}

/// A barycentric evaluator whose two weights are affine functions of the
/// sample position, pinned into the admissible weight range. Triangle
/// setup chooses the six coefficients.
pub struct AffineEvaluator {
    pub u0: i64,
    pub ux: i64,
    pub uy: i64,
    pub v0: i64,
    pub vx: i64,
    pub vy: i64,
}

impl AffineEvaluator {
    fn weight_at(&self, c0: i64, cx: i64, cy: i64, x: i64, y: i64) -> (r: i64)
        requires
            self.wf(),
            mag(c0 as int) <= COEFF_LIMIT,
            mag(cx as int) <= COEFF_LIMIT,
            mag(cy as int) <= COEFF_LIMIT,
            mag(x as int) <= EVAL_LIMIT,
            mag(y as int) <= EVAL_LIMIT,
        ensures
            r as int == clamp_weight(c0 + x * cx + y * cy),
            weight_ok(r as int),
    {
        proof {
            lemma_affine_term(cx as int, x as int);
            lemma_affine_term(cy as int, y as int);
        }
        let t = c0 + x * cx + y * cy;
        if t > WEIGHT_LIMIT {
            WEIGHT_LIMIT
        } else if t < -WEIGHT_LIMIT {
            -WEIGHT_LIMIT
        } else {
            t
        }
    }
}

impl Barycentric for AffineEvaluator {
    open spec fn wf(&self) -> bool {
        &&& mag(self.u0 as int) <= COEFF_LIMIT
        &&& mag(self.ux as int) <= COEFF_LIMIT
        &&& mag(self.uy as int) <= COEFF_LIMIT
        &&& mag(self.v0 as int) <= COEFF_LIMIT
        &&& mag(self.vx as int) <= COEFF_LIMIT
        &&& mag(self.vy as int) <= COEFF_LIMIT
    }

    open spec fn u_point(&self, x: int, y: int) -> int {
        clamp_weight(self.u0 + x * self.ux + y * self.uy)
    }

    open spec fn v_point(&self, x: int, y: int) -> int {
        clamp_weight(self.v0 + x * self.vx + y * self.vy)
    }

    fn weights(&self, pos: Vector2<i64>, scale: Vector2<i64>) -> (r: (LaneGrid, LaneGrid)) {
        let mut gu = LaneGrid::splat(0);
        let mut gv = LaneGrid::splat(0);
        let mut i: usize = 0;
        while i < 64
            invariant
                i <= 64,
                self.wf(),
                eval_pos_ok_inv(pos, scale),
                forall|j: int| 0 <= j < i ==>
                    #[trigger] gu@[j] == self.u_point(sample_x(pos, scale, j), sample_y(pos, scale, j)),
                forall|j: int| 0 <= j < i ==>
                    #[trigger] gv@[j] == self.v_point(sample_x(pos, scale, j), sample_y(pos, scale, j)),
                forall|j: int| 0 <= j < i ==>
                    weight_ok(#[trigger] gu@[j] as int) && weight_ok(gv@[j] as int),
            decreases 64 - i,
        {
            proof {
                lemma_sample_bound(pos.x as int, scale.x as int, i as int % 8);
                lemma_sample_bound(pos.y as int, scale.y as int, i as int / 8);
            }
            let sx = pos.x + ((i as i64) % 8) * scale.x;
            let sy = pos.y + ((i as i64) / 8) * scale.y;
            let u = self.weight_at(self.u0, self.ux, self.uy, sx, sy);
            let v = self.weight_at(self.v0, self.vx, self.vy, sx, sy);
            gu.set_lane(i, u);
            gv.set_lane(i, v);
            i = i + 1;
        }
        (gu, gv)
    }
}

/// The evaluator-domain condition, phrased over the vectors.
pub open spec fn eval_pos_ok_inv(pos: Vector2<i64>, scale: Vector2<i64>) -> bool {
    &&& mag(pos.x as int) + 8 * mag(scale.x as int) <= EVAL_LIMIT
    &&& mag(pos.y as int) + 8 * mag(scale.y as int) <= EVAL_LIMIT
}

/// Flat interpolation of plain integer attributes: every lane takes the
/// first vertex's attribute.
impl Interpolate<i64> for i64 {
    open spec fn interpolate_spec(t: &Triangle<i64>, w: int, u: int, v: int) -> i64 {
        t.x
    }

    fn interpolate(t: &Triangle<i64>, wts: BaryWeights) -> (r: i64) {
        t.x
    }
}

/// Shading that stores the interpolated value as the pixel and overwrites
/// on blend.
pub struct ReplaceShader;

impl Fragment<i64, i64> for ReplaceShader {
    open spec fn fragment_spec(&self, o: i64) -> i64 {
        o
    }

    open spec fn blend_spec(&self, stored: i64, fresh: i64) -> i64 {
        fresh
    }

    fn fragment(&self, o: i64) -> (r: i64) {
        o
    }

    fn blend(&self, stored: i64, fresh: i64) -> (r: i64) {
        fresh
    }
}

/// A pixel mapping that pins every value to an upper level.
pub struct LevelClamp {
    pub level: i64,
}

impl Mapping<i64, i64> for LevelClamp {
    open spec fn map_spec(&self, s: i64) -> i64 {
        if s > self.level {
            self.level
        } else {
            s
        }
    }

    fn mapping(&self, s: i64) -> (r: i64) {
        if s > self.level {
            self.level
        } else {
            s
        }
    }
}

/// A sink that records every accepted triple, in order.
pub struct CollectSink<P> {
    pub log: Vec<(u32, u32, P)>,
}

impl<P> CollectSink<P> {
    /// An empty sink.
    pub fn new() -> (r: CollectSink<P>)
        ensures
            r.sink_view() == Seq::<(u32, u32, P)>::empty(),
    {
        CollectSink { log: Vec::new() }
    }
}

impl<P> Put<P> for CollectSink<P> {
    open spec fn sink_view(&self) -> Seq<(u32, u32, P)> {
        self.log@
    }

    fn put(&mut self, x: u32, y: u32, v: P) {
        self.log.push((x, y, v));
    }
}

} // verus!
