//! Coverage and depth masking for one 8x8 tile: the per-lane barycentric
//! weights and the 64-bit mask of lanes the triangle covers.

use vstd::prelude::*;
use cgmath::{Vector2, Vector3};
use crate::bits::{nth_bit, lowest_lane, lemma_bit_or, lemma_bit_and, lemma_bit_not, lemma_bit_single, lemma_lowest_lane};
use crate::caps::{Barycentric, BaryWeights, sample_x, sample_y, eval_pos_ok};
use crate::grid::{LaneGrid, interpolate_depths};
use crate::lane::TileIndex;
use crate::scalar::{
    UNIT, FAR, weight_ok, depth_input_ok, depth_ok, inside, interp_depth, third_weight,
};

verus! {

/// Per-lane barycentric weights for one tile, with the mask of lanes the
/// triangle covers: bit `i` is set exactly when all three weights of lane
/// `i` are non-negative.
#[derive(Clone, Copy)]
pub struct TileMask {
    pub u: LaneGrid,
    pub v: LaneGrid,
    pub mask: u64,
}

impl TileMask {
    /// Both weight grids are inside the evaluator's bound.
    pub open spec fn wf(&self) -> bool {
        forall|i: int| 0 <= i < 64 ==>
            weight_ok(#[trigger] self.u@[i] as int) && weight_ok(self.v@[i] as int)
    }

    /// Evaluate the barycentric weights of every lane of the tile at `pos`
    /// with per-pixel spacing `scale`, and mark the lanes all three of
    /// whose weights are non-negative: exactly the lanes whose sample
    /// point lies inside the triangle.
    pub fn new<B: Barycentric>(pos: Vector2<i64>, scale: Vector2<i64>, bary: &B) -> (r: TileMask)
        requires
            bary.wf(),
            eval_pos_ok(pos.x as int, scale.x as int),
            eval_pos_ok(pos.y as int, scale.y as int),
        ensures
            r.wf(),
            forall|i: int| 0 <= i < 64 ==>
                #[trigger] r.u@[i] == bary.u_point(sample_x(pos, scale, i), sample_y(pos, scale, i)),
            forall|i: int| 0 <= i < 64 ==>
                #[trigger] r.v@[i] == bary.v_point(sample_x(pos, scale, i), sample_y(pos, scale, i)),
            forall|i: int| 0 <= i < 64 ==>
                nth_bit(r.mask, i as u64) == inside(r.u@[i] as int, r.v@[i] as int),
    {
        let (u, v) = bary.weights(pos, scale);
        let uv = LaneGrid::splat(UNIT).sub(&u.add(&v));
        let sw = uv.sign_bits();
        let su = u.sign_bits();
        let sv = v.sign_bits();
        let m = !(sw | su | sv);
        proof {
            assert forall|i: int| 0 <= i < 64 implies
                nth_bit(m, i as u64) == inside(u@[i] as int, v@[i] as int) by {
                let j = i as u64;
                lemma_bit_or(sw, su, j);
                lemma_bit_or(sw | su, sv, j);
                lemma_bit_not(sw | su | sv, j);
                assert(uv@[i] == UNIT - (u@[i] + v@[i]));
            }
        }
        TileMask { u, v, mask: m }
    }

    /// Intersect the mask with the depth test: a covered lane survives
    /// exactly when its interpolated depth is no farther than the depth
    /// buffer's (the difference is non-negative) and no nearer than the
    /// near plane (depth plus one is non-negative). Every surviving lane's
    /// interpolated depth is merged into the buffer; the rest keep theirs.
    pub fn mask_with_depth(&mut self, z: &Vector3<i64>, d: &mut LaneGrid)
        requires
            old(self).wf(),
            depth_input_ok(z.x as int),
            depth_input_ok(z.y as int),
            depth_input_ok(z.z as int),
            forall|i: int| 0 <= i < 64 ==> depth_ok(#[trigger] old(d)@[i] as int),
        ensures
            final(self).wf(),
            final(self).u == old(self).u,
            final(self).v == old(self).v,
            forall|i: int| #![trigger old(self).u@[i]] 0 <= i < 64 ==> {
                let dep = interp_depth(old(self).u@[i] as int, old(self).v@[i] as int,
                    z.x as int, z.y as int, z.z as int);
                nth_bit(final(self).mask, i as u64) ==
                    (nth_bit(old(self).mask, i as u64) && old(d)@[i] - dep >= 0 && dep + FAR >= 0)
            },
            forall|i: int| #![trigger final(d)@[i]] 0 <= i < 64 ==> {
                let dep = interp_depth(old(self).u@[i] as int, old(self).v@[i] as int,
                    z.x as int, z.y as int, z.z as int);
                final(d)@[i] as int == (if nth_bit(final(self).mask, i as u64) {
                    dep
                } else {
                    old(d)@[i] as int
                })
            },
            forall|i: int| 0 <= i < 64 ==> depth_ok(#[trigger] final(d)@[i] as int),
    {
        let depth = interpolate_depths(&self.u, &self.v, z.x, z.y, z.z);
        let down = d.sub(&depth);
        let s1 = down.sign_bits();
        let near = depth.add(&LaneGrid::splat(FAR));
        let s2 = near.sign_bits();
        let ghost m0 = self.mask;
        self.mask = self.mask & !s1 & !s2;
        proof {
            assert forall|i: int| 0 <= i < 64 implies
                #[trigger] nth_bit(self.mask, i as u64) ==
                    (nth_bit(m0, i as u64) && !nth_bit(s1, i as u64) && !nth_bit(s2, i as u64)) by {
                let j = i as u64;
                lemma_bit_not(s1, j);
                lemma_bit_not(s2, j);
                lemma_bit_and(m0, !s1, j);
                lemma_bit_and(m0 & !s1, !s2, j);
            }
        }
        d.replace(&depth, self.mask);
    }

    /// Consume the mask as a lane iterator.
    pub fn iter(self) -> (it: TileMaskIter)
        requires
            self.wf(),
        ensures
            it.u == self.u,
            it.v == self.v,
            it.mask == self.mask,
            it.wf(),
    {
        TileMaskIter { u: self.u, v: self.v, mask: self.mask }
    }
}

/// Iterator over the covered lanes of a tile, lowest lane number first.
/// Each step yields the lane's index and its three barycentric weights.
pub struct TileMaskIter {
    pub u: LaneGrid,
    pub v: LaneGrid,
    pub mask: u64,
}

impl TileMaskIter {
    pub open spec fn wf(&self) -> bool {
        forall|i: int| 0 <= i < 64 ==>
            weight_ok(#[trigger] self.u@[i] as int) && weight_ok(self.v@[i] as int)
    }

    /// Yield the lowest still-flagged lane and clear its bit; `None` once
    /// the mask is exhausted, so every flagged lane is yielded exactly
    /// once, in ascending order.
    pub fn next(&mut self) -> (r: Option<(TileIndex, BaryWeights)>)
        requires
            old(self).wf(),
        ensures
            final(self).wf(),
            final(self).u == old(self).u,
            final(self).v == old(self).v,
            old(self).mask == 0 ==> r is None && final(self).mask == 0,
            old(self).mask != 0 ==> ({
                let k = lowest_lane(old(self).mask);
                &&& 0 <= k < 64
                &&& nth_bit(old(self).mask, k as u64)
                &&& (forall|j: u64| j < k ==> !nth_bit(old(self).mask, j))
                &&& r == Some((TileIndex(k as u32), (BaryWeights {
                    w: (UNIT - old(self).u@[k] - old(self).v@[k]) as i64,
                    u: old(self).u@[k],
                    v: old(self).v@[k],
                })))
                &&& (forall|j: u64| j < 64 ==>
                    nth_bit(final(self).mask, j) == (nth_bit(old(self).mask, j) && j != k))
            }),
    {
        if self.mask == 0 {
            return None;
        }
        proof {
            lemma_lowest_lane(self.mask);
        }
        let k: u32 = self.mask.trailing_zeros();
        let ghost m0 = self.mask;
        self.mask = self.mask & !(1u64 << (k as u64));
        proof {
            assert forall|j: u64| j < 64 implies
                nth_bit(self.mask, j) == (nth_bit(m0, j) && j != k as u64) by {
                lemma_bit_not(1u64 << (k as u64), j);
                lemma_bit_and(m0, !(1u64 << (k as u64)), j);
                lemma_bit_single(k as u64, j);
            }
        }
        let u = self.u.get(k as usize);
        let v = self.v.get(k as usize);
        let w = UNIT - u - v;
        Some((TileIndex(k), BaryWeights { w, u, v }))
    }
}

} // verus!
