//! An 8x8 grid of packed fixed-point lanes: the integer model of the
//! packed-float arithmetic unit the rasterizer runs on. Lane `i` belongs to
//! the pixel at column `i % 8`, row `i / 8` of the tile.

use vstd::prelude::*;
use crate::bits::{nth_bit, lemma_bit_zero, lemma_bit_single, lemma_bit_or};
use crate::scalar::{
    UNIT, WEIGHT_LIMIT, DEPTH_INPUT_LIMIT, DEPTH_LIMIT,
    weight_ok, depth_input_ok, depth_ok, interp_depth, third_weight,
    lemma_interp_depth_bound,
};

verus! {

broadcast use vstd::array::axiom_spec_array_fill_for_copy_type;

/// 64 packed fixed-point scalars, one per lane of an 8x8 tile.
#[derive(Clone, Copy)]
pub struct LaneGrid {
    pub lanes: [i64; 64],
}

impl View for LaneGrid {
    type V = Seq<i64>;

    open spec fn view(&self) -> Seq<i64> {
        self.lanes@
    }
}

impl LaneGrid {
    /// All 64 lanes hold the same value.
    pub fn splat(v: i64) -> (r: LaneGrid)
        ensures
            forall|i: int| 0 <= i < 64 ==> r@[i] == v,
    {
        let lanes: [i64; 64] = [v; 64];
        let r = LaneGrid { lanes };
        proof {
            assert forall|i: int| 0 <= i < 64 implies r@[i] == v by {
                vstd::array::axiom_spec_array_fill_for_copy_type::<i64, 64>(v);
                assert(lanes@[i] == v);
            }
        }
        r
    }

    /// One lane's value.
    pub fn get(&self, i: usize) -> (r: i64)
        requires
            i < 64,
        ensures
            r == self@[i as int],
    {
        self.lanes[i]
    }

    /// Store one lane.
    pub fn set_lane(&mut self, i: usize, v: i64)
        requires
            i < 64,
        ensures
            final(self)@ == old(self)@.update(i as int, v),
    {
        self.lanes[i] = v;
    }

    /// Lanewise sum.
    pub fn add(&self, o: &LaneGrid) -> (r: LaneGrid)
        requires
            forall|i: int| #![trigger self@[i]] 0 <= i < 64 ==> i64::MIN <= self@[i] + o@[i] <= i64::MAX,
        ensures
            forall|i: int| 0 <= i < 64 ==> r@[i] == self@[i] + o@[i],
    {
        let mut out = LaneGrid { lanes: [0; 64] };
        let mut i: usize = 0;
        while i < 64
            invariant
                i <= 64,
                forall|j: int| #![trigger self@[j]] 0 <= j < 64 ==> i64::MIN <= self@[j] + o@[j] <= i64::MAX,
                forall|j: int| 0 <= j < i ==> out@[j] == self@[j] + o@[j],
            decreases 64 - i,
        {
            out.set_lane(i, self.get(i) + o.get(i));
            i = i + 1;
        }
        out
    }

    /// Lanewise difference.
    pub fn sub(&self, o: &LaneGrid) -> (r: LaneGrid)
        requires
            forall|i: int| #![trigger self@[i]] 0 <= i < 64 ==> i64::MIN <= self@[i] - o@[i] <= i64::MAX,
        ensures
            forall|i: int| 0 <= i < 64 ==> r@[i] == self@[i] - o@[i],
    {
        let mut out = LaneGrid { lanes: [0; 64] };
        let mut i: usize = 0;
        while i < 64
            invariant
                i <= 64,
                forall|j: int| #![trigger self@[j]] 0 <= j < 64 ==> i64::MIN <= self@[j] - o@[j] <= i64::MAX,
                forall|j: int| 0 <= j < i ==> out@[j] == self@[j] - o@[j],
            decreases 64 - i,
        {
            out.set_lane(i, self.get(i) - o.get(i));
            i = i + 1;
        }
        out
    }

    /// Pack the lanes' sign bits into a mask: bit `i` is set exactly when
    /// lane `i` is negative.
    pub fn sign_bits(&self) -> (r: u64)
        ensures
            forall|i: u64| i < 64 ==> nth_bit(r, i) == (self@[i as int] < 0),
    {
        let mut m: u64 = 0;
        let mut i: usize = 0;
        proof {
            assert forall|j: u64| j < 64 implies !nth_bit(0u64, j) by {
                lemma_bit_zero(j);
            }
        }
        while i < 64
            invariant
                i <= 64,
                forall|j: u64| j < i ==> nth_bit(m, j) == (self@[j as int] < 0),
                forall|j: u64| i <= j < 64 ==> !nth_bit(m, j),
            decreases 64 - i,
        {
            if self.get(i) < 0 {
                let ghost m0 = m;
                m = m | (1u64 << (i as u64));
                proof {
                    assert forall|j: u64| j < 64 implies
                        nth_bit(m, j) == (nth_bit(m0, j) || j == i) by {
                        lemma_bit_or(m0, 1u64 << (i as u64), j);
                        lemma_bit_single(i as u64, j);
                    }
                }
            }
            i = i + 1;
        }
        m
    }

    /// Masked merge: lanes whose mask bit is set take the other grid's
    /// value, the rest keep their own.
    pub fn replace(&mut self, o: &LaneGrid, mask: u64)
        ensures
            forall|i: int| 0 <= i < 64 ==>
                final(self)@[i] == (if nth_bit(mask, i as u64) {
                    o@[i]
                } else {
                    old(self)@[i]
                }),
    {
        let mut i: usize = 0;
        while i < 64
            invariant
                i <= 64,
                forall|j: int| 0 <= j < i ==>
                    self@[j] == (if nth_bit(mask, j as u64) {
                        o@[j]
                    } else {
                        old(self)@[j]
                    }),
                forall|j: int| i <= j < 64 ==> self@[j] == old(self)@[j],
            decreases 64 - i,
        {
            if (mask >> (i as u64)) & 1u64 == 1u64 {
                let v = o.get(i);
                self.set_lane(i, v);
            }
            i = i + 1;
        }
    }
}

/// Lanewise barycentric depth interpolation: the weighted dot product of
/// the two stored weight grids (and the third weight they determine) with
/// the triangle's three vertex depths.
pub fn interpolate_depths(u: &LaneGrid, v: &LaneGrid, zx: i64, zy: i64, zz: i64) -> (r: LaneGrid)
    requires
        forall|i: int| 0 <= i < 64 ==> weight_ok(u@[i] as int) && weight_ok(v@[i] as int),
        depth_input_ok(zx as int),
        depth_input_ok(zy as int),
        depth_input_ok(zz as int),
    ensures
        forall|i: int| 0 <= i < 64 ==>
            r@[i] == interp_depth(u@[i] as int, v@[i] as int, zx as int, zy as int, zz as int),
        forall|i: int| 0 <= i < 64 ==> depth_ok(r@[i] as int),
{
    let mut out = LaneGrid { lanes: [0; 64] };
    let mut i: usize = 0;
    while i < 64
        invariant
            i <= 64,
            forall|j: int| 0 <= j < 64 ==> weight_ok(u@[j] as int) && weight_ok(v@[j] as int),
            depth_input_ok(zx as int),
            depth_input_ok(zy as int),
            depth_input_ok(zz as int),
            forall|j: int| 0 <= j < i ==>
                out@[j] == interp_depth(u@[j] as int, v@[j] as int, zx as int, zy as int, zz as int),
            forall|j: int| 0 <= j < i ==> depth_ok(out@[j] as int),
        decreases 64 - i,
    {
        let uw = u.get(i);
        let vw = v.get(i);
        proof {
            lemma_interp_depth_bound(uw as int, vw as int, zx as int, zy as int, zz as int);
        }
        let ww = UNIT - uw - vw;
        let d = ww * zx + uw * zy + vw * zz;
        out.set_lane(i, d);
        i = i + 1;
    }
    out
}

} // verus!
