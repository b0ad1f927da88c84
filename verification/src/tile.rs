//! The leaf storage unit: one 8x8 depth buffer and one 8x8 color buffer,
//! with rasterization, clearing, write-back and mapping over them.

use vstd::prelude::*;
use cgmath::{Vector2, Vector3};
use genmesh::Triangle;
use crate::bits::{nth_bit, lowest_lane, lemma_mask_zero};
use crate::caps::{Barycentric, Interpolate, Fragment, Mapping, Put, sample_x, sample_y};
use crate::grid::LaneGrid;
use crate::lane::TileIndex;
use crate::mask::TileMask;
use crate::raster::{Raster, ApplyMapping, raster_lane_post};
use crate::scalar::{FAR, depth_ok, inside, third_weight};

verus! {

broadcast use vstd::array::axiom_spec_array_fill_for_copy_type;

/// One 8x8 pixel block: a packed depth buffer (initially all far plane)
/// and 64 pixel values, lane `i` belonging to the pixel at column `i % 8`,
/// row `i / 8`.
#[derive(Clone, Copy)]
pub struct Tile<P> {
    pub depth: LaneGrid,
    pub color: [P; 64],
}

impl<P: Copy> Tile<P> {
    /// A fresh tile: depth all at the far plane, color all `p`.
    pub fn new(p: P) -> (r: Tile<P>)
        ensures
            r.wf(),
            r.side_spec() == 8,
            forall|x: int, y: int| 0 <= x < 8 && 0 <= y < 8 ==>
                #[trigger] r.depth_at(x, y) == FAR && r.color_at(x, y) == p,
    {
        let r = Tile { depth: LaneGrid::splat(FAR), color: [p; 64] };
        proof {
            assert forall|x: int, y: int| 0 <= x < 8 && 0 <= y < 8 implies
                #[trigger] r.depth_at(x, y) == FAR && r.color_at(x, y) == p by {
                assert(0 <= 8 * y + x < 64);
            }
        }
        r
    }
}

impl<P: Copy> Raster<P> for Tile<P> {
    open spec fn side_spec(&self) -> int {
        8
    }

    open spec fn wf(&self) -> bool {
        forall|i: int| 0 <= i < 64 ==> depth_ok(#[trigger] self.depth@[i] as int)
    }

    open spec fn depth_at(&self, x: int, y: int) -> int {
        self.depth@[8 * y + x] as int
    }

    open spec fn color_at(&self, x: int, y: int) -> P {
        self.color@[8 * y + x]
    }

    open spec fn write_log(&self, x: int, y: int) -> Seq<(u32, u32, P)> {
        Seq::new(64, |k: int| (((x + k % 8) as u32, (y + k / 8) as u32, self.color@[k])))
    }

    fn size(&self) -> (r: u32) {
        8
    }

    fn raster<B: Barycentric, T: Interpolate<O>, O, F: Fragment<O, P>>(
        &mut self,
        pos: Vector2<i64>,
        scale: Vector2<i64>,
        z: &Vector3<i64>,
        bary: &B,
        t: &Triangle<T>,
        frag: &F,
    ) {
        let m0 = TileMask::new(pos, scale, bary);
        let ghost d0 = self.depth@;
        let ghost c0 = self.color@;
        if m0.mask == 0 {
            proof {
                lemma_mask_zero(m0.mask);
                assert forall|x: int, y: int| 0 <= x < 8 && 0 <= y < 8 implies
                    #[trigger] raster_lane_post(bary, pos, scale, z, t, frag, x, y,
                        self.depth_at(x, y), self.color_at(x, y),
                        self.depth_at(x, y), self.color_at(x, y)) by {
                    let i = 8 * y + x;
                    assert(0 <= i < 64);
                    assert(i % 8 == x && i / 8 == y);
                    assert(!nth_bit(m0.mask, i as u64));
                    assert(!inside(m0.u@[i] as int, m0.v@[i] as int));
                }
            }
            return;
        }
        let mut m = m0;
        m.mask_with_depth(z, &mut self.depth);
        let ghost m1 = m.mask;
        let ghost dview = self.depth@;
        let mut it = m.iter();
        let ghost mut bound: int = 0;
        loop
            invariant_except_break
                it.wf(),
                it.u == m0.u,
                it.v == m0.v,
                0 <= bound <= 64,
                forall|i: int| #![trigger nth_bit(it.mask, i as u64)] #![trigger nth_bit(m1, i as u64)]
                    0 <= i < 64 ==>
                    (nth_bit(it.mask, i as u64) == (nth_bit(m1, i as u64) && i >= bound)),
                self.depth@ == dview,
                forall|i: int| 0 <= i < 64 && !(nth_bit(m1, i as u64) && i < bound) ==>
                    #[trigger] self.color@[i] == c0[i],
                forall|i: int| 0 <= i < 64 && nth_bit(m1, i as u64) && i < bound ==>
                    #[trigger] self.color@[i] == frag.blend_spec(c0[i], frag.fragment_spec(
                        T::interpolate_spec(t,
                            third_weight(m0.u@[i] as int, m0.v@[i] as int),
                            m0.u@[i] as int, m0.v@[i] as int))),
            ensures
                self.depth@ == dview,
                forall|i: int| 0 <= i < 64 && !nth_bit(m1, i as u64) ==>
                    #[trigger] self.color@[i] == c0[i],
                forall|i: int| 0 <= i < 64 && nth_bit(m1, i as u64) ==>
                    #[trigger] self.color@[i] == frag.blend_spec(c0[i], frag.fragment_spec(
                        T::interpolate_spec(t,
                            third_weight(m0.u@[i] as int, m0.v@[i] as int),
                            m0.u@[i] as int, m0.v@[i] as int))),
            decreases 64 - bound,
        {
            let ghost mpre = it.mask;
            match it.next() {
                None => {
                    proof {
                        lemma_mask_zero(mpre);
                        assert forall|i: int| 0 <= i < 64 && #[trigger] nth_bit(m1, i as u64) implies
                            i < bound by {
                            assert(!nth_bit(mpre, i as u64));
                        }
                    }
                    break;
                },
                Some((idx, wts)) => {
                    let ghost k = lowest_lane(mpre);
                    let o = T::interpolate(t, wts);
                    let newp = frag.fragment(o);
                    let ki = idx.0 as usize;
                    let cur = self.color[ki];
                    let b = frag.blend(cur, newp);
                    self.color[ki] = b;
                    proof {
                        assert(ki as int == k);
                        assert(nth_bit(m1, k as u64) && k >= bound);
                        assert(wts.u == m0.u@[k] && wts.v == m0.v@[k]);
                        assert(wts.w as int == third_weight(m0.u@[k] as int, m0.v@[k] as int));
                        assert(cur == c0[k as int]);
                        assert(self.color@[k] == frag.blend_spec(c0[k], frag.fragment_spec(
                            T::interpolate_spec(t,
                                third_weight(m0.u@[k] as int, m0.v@[k] as int),
                                m0.u@[k] as int, m0.v@[k] as int))));
                        bound = k + 1;
                        assert forall|i: int| 0 <= i < 64 implies
                            (#[trigger] nth_bit(it.mask, i as u64) == (nth_bit(m1, i as u64) && i >= bound)) by {
                            assert(nth_bit(mpre, i as u64) == (nth_bit(m1, i as u64) && i >= bound - 1));
                            if i < k {
                                assert(!nth_bit(mpre, i as u64));
                            }
                        }
                    }
                },
            }
        }
        proof {
            assert forall|x: int, y: int| 0 <= x < 8 && 0 <= y < 8 implies
                #[trigger] raster_lane_post(bary, pos, scale, z, t, frag, x, y,
                    d0[8 * y + x] as int, c0[8 * y + x],
                    self.depth_at(x, y), self.color_at(x, y)) by {
                let i = 8 * y + x;
                assert(0 <= i < 64);
                assert(i % 8 == x && i / 8 == y);
                assert(sample_x(pos, scale, i) == pos.x + x * scale.x);
                assert(sample_y(pos, scale, i) == pos.y + y * scale.y);
                assert(nth_bit(m0.mask, i as u64) == inside(m0.u@[i] as int, m0.v@[i] as int));
            }
        }
    }

    fn clear(&mut self, p: P) {
        self.depth = LaneGrid::splat(FAR);
        self.color = [p; 64];
        proof {
            assert forall|x: int, y: int| 0 <= x < 8 && 0 <= y < 8 implies
                #[trigger] self.depth_at(x, y) == FAR && self.color_at(x, y) == p by {
                assert(0 <= 8 * y + x < 64);
            }
        }
    }

    fn write<W: Put<P>>(&self, x: u32, y: u32, v: &mut W) {
        let ghost base = v.sink_view();
        let ghost wl = self.write_log(x as int, y as int);
        let mut k: u32 = 0;
        while k < 64
            invariant
                k <= 64,
                x + 8 <= u32::MAX,
                y + 8 <= u32::MAX,
                wl == self.write_log(x as int, y as int),
                v.sink_view() == base + wl.take(k as int),
            decreases 64 - k,
        {
            let i = TileIndex(k);
            let cx = x + i.x();
            let cy = y + i.y();
            v.put(cx, cy, self.color[k as usize]);
            proof {
                assert(wl[k as int] == (cx, cy, self.color@[k as int]));
                assert(base + wl.take(k as int).push(wl[k as int]) =~= base + wl.take(k as int + 1));
            }
            k = k + 1;
        }
        proof {
            assert(wl.take(64) =~= wl);
        }
    }
}

impl<S2: Copy, P: Copy> ApplyMapping<P, Tile<S2>, S2> for Tile<P> {
    fn map<F: Mapping<S2, P>>(&mut self, src: &Tile<S2>, f: &F) {
        let ghost dpre = self.depth@;
        let mut i: usize = 0;
        while i < 64
            invariant
                i <= 64,
                self.depth@ == dpre,
                forall|j: int| 0 <= j < i ==>
                    #[trigger] self.color@[j] == f.map_spec(src.color@[j]),
            decreases 64 - i,
        {
            let s = src.color[i];
            let p2 = f.mapping(s);
            self.color[i] = p2;
            i = i + 1;
        }
        proof {
            assert forall|x: int, y: int| 0 <= x < 8 && 0 <= y < 8 implies
                #[trigger] self.color_at(x, y) == f.map_spec(src.color_at(x, y)) by {
                assert(0 <= 8 * y + x < 64);
            }
        }
    }
}

} // verus!
