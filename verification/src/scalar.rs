//! The fixed-point scalar model.
//!
//! Every sampled quantity (barycentric weight, depth) is an `i64` holding a
//! fixed-point number: `UNIT` stands for one. The bounds below keep all of
//! the core's arithmetic inside `i64`.

use vstd::prelude::*;

verus! {

/// Fixed-point one: the scale of barycentric weights.
pub const UNIT: i64 = 65536;

/// Bound on the magnitude of a weight an evaluator may hand back.
pub const WEIGHT_LIMIT: i64 = 16777216;

/// Bound on the magnitude of a vertex depth.
pub const DEPTH_INPUT_LIMIT: i64 = 4294967296;

/// The far plane: depth one, in the depth buffer's scale of
/// `UNIT * DEPTH_INPUT` (a weight times a vertex depth).
pub const FAR: i64 = 65536 * 65536;

/// Bound on the magnitude of any depth buffer lane.
pub const DEPTH_LIMIT: i64 = (65536 + 4 * 16777216) * 4294967296;

/// Bound on the magnitude of a sample position handed to an evaluator.
pub const EVAL_LIMIT: i64 = 1099511627776;

/// Magnitude of an integer.
pub open spec fn mag(a: int) -> int {
    if a < 0 {
        -a
    } else {
        a
    }
}

/// The third barycentric weight, from the two stored ones.
pub open spec fn third_weight(u: int, v: int) -> int {
    UNIT - u - v
}

/// A lane lies inside the triangle: all three weights non-negative.
pub open spec fn inside(u: int, v: int) -> bool {
    u >= 0 && v >= 0 && third_weight(u, v) >= 0
}

/// Depth interpolated at a lane: the barycentric-weighted dot product of
/// the three vertex depths.
pub open spec fn interp_depth(u: int, v: int, zx: int, zy: int, zz: int) -> int {
    third_weight(u, v) * zx + u * zy + v * zz
}

/// A weight the evaluator may hand back.
pub open spec fn weight_ok(u: int) -> bool {
    mag(u) <= WEIGHT_LIMIT
}

/// A vertex depth the core accepts.
pub open spec fn depth_input_ok(z: int) -> bool {
    mag(z) <= DEPTH_INPUT_LIMIT
}

/// A depth buffer lane the core maintains.
pub open spec fn depth_ok(d: int) -> bool {
    mag(d) <= DEPTH_LIMIT
}

/// Interpolating bounded weights against bounded vertex depths stays inside
/// the depth bound, and each summand stays inside `i64`.
pub proof fn lemma_interp_depth_bound(u: int, v: int, zx: int, zy: int, zz: int)
    by (nonlinear_arith)
    requires
        weight_ok(u),
        weight_ok(v),
        depth_input_ok(zx),
        depth_input_ok(zy),
        depth_input_ok(zz),
    ensures
        mag(third_weight(u, v) * zx) <= (UNIT + 2 * WEIGHT_LIMIT) * DEPTH_INPUT_LIMIT,
        mag(u * zy) <= WEIGHT_LIMIT * DEPTH_INPUT_LIMIT,
        mag(v * zz) <= WEIGHT_LIMIT * DEPTH_INPUT_LIMIT,
        depth_ok(interp_depth(u, v, zx, zy, zz)),
{
}

} // verus!
