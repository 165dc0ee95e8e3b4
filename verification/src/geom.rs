//! Points and directions in scene space: three fixed-point components,
//! with the two vector operations the intersection formula needs.

use vstd::prelude::*;
use crate::fixed::{COORD_LIMIT, SCALE, tdiv, div_trunc, lemma_tdiv_abs_bound};

verus! {

/// Largest component magnitude `dot_product` accepts: twice the
/// coordinate limit, since a difference of two in-range points can reach
/// it.
pub const DOT_IN_LIMIT: i64 = 33554432;

/// Largest magnitude a dot product of in-range vectors can have:
/// `3 * DOT_IN_LIMIT * DOT_IN_LIMIT / SCALE`.
pub const DOT_OUT_LIMIT: i64 = 51539607552;

/// A position or direction in scene space; each component is a
/// fixed-point multiple of `1/SCALE`.
#[derive(Clone, Copy, PartialEq, Eq, Structural, Debug)]
pub struct Point3D {
    pub x: i64,
    pub y: i64,
    pub z: i64,
}

/// A canvas-space coordinate in the centered frame, before projection.
/// Unlike `Point3D` components these are whole pixel counts, not
/// fixed-point values.
#[derive(Clone, Copy, PartialEq, Eq, Structural, Debug)]
pub struct Point2D {
    pub x: i64,
    pub y: i64,
}

/// Every component of `v` has magnitude at most `b`.
pub open spec fn in_bounds(v: Point3D, b: int) -> bool {
    &&& -b <= v.x <= b
    &&& -b <= v.y <= b
    &&& -b <= v.z <= b
}

/// Componentwise difference.
pub open spec fn sub_spec(a: Point3D, b: Point3D) -> Point3D {
    Point3D { x: (a.x - b.x) as i64, y: (a.y - b.y) as i64, z: (a.z - b.z) as i64 }
}

/// Fixed-point dot product: the exact integer products are summed and
/// rescaled once, truncating toward zero.
pub open spec fn dot_spec(a: Point3D, b: Point3D) -> int {
    tdiv(a.x * b.x + a.y * b.y + a.z * b.z, SCALE as int)
}

/// The dot product of vectors whose components have magnitude at most
/// `DOT_IN_LIMIT` has magnitude at most `DOT_OUT_LIMIT`.
pub proof fn lemma_dot_spec_bound(a: Point3D, b: Point3D)
    requires
        in_bounds(a, DOT_IN_LIMIT as int),
        in_bounds(b, DOT_IN_LIMIT as int),
    ensures
        -DOT_OUT_LIMIT <= dot_spec(a, b) <= DOT_OUT_LIMIT,
        -1125899906842624 <= a.x * b.x <= 1125899906842624,
        -1125899906842624 <= a.y * b.y <= 1125899906842624,
        -1125899906842624 <= a.z * b.z <= 1125899906842624,
{
    assert(-1125899906842624 <= a.x * b.x <= 1125899906842624) by (nonlinear_arith)
        requires
            -33554432 <= a.x <= 33554432,
            -33554432 <= b.x <= 33554432,
    ;
    assert(-1125899906842624 <= a.y * b.y <= 1125899906842624) by (nonlinear_arith)
        requires
            -33554432 <= a.y <= 33554432,
            -33554432 <= b.y <= 33554432,
    ;
    assert(-1125899906842624 <= a.z * b.z <= 1125899906842624) by (nonlinear_arith)
        requires
            -33554432 <= a.z <= 33554432,
            -33554432 <= b.z <= 33554432,
    ;
    lemma_tdiv_abs_bound(
        a.x * b.x + a.y * b.y + a.z * b.z,
        SCALE as int,
        3377699720527872,
    );
    assert(3377699720527872int / 65536 == 51539607552);
}

/// The dot product of a vector with itself is nonnegative.
pub proof fn lemma_dot_spec_self_nonneg(v: Point3D)
    ensures
        dot_spec(v, v) >= 0,
{
    assert(v.x * v.x >= 0) by (nonlinear_arith);
    assert(v.y * v.y >= 0) by (nonlinear_arith);
    assert(v.z * v.z >= 0) by (nonlinear_arith);
    assert(tdiv(v.x * v.x + v.y * v.y + v.z * v.z, SCALE as int) >= 0);
}

/// Componentwise difference of two bounded points.
pub fn subtract(a: Point3D, b: Point3D) -> (r: Point3D)
    requires
        in_bounds(a, COORD_LIMIT as int),
        in_bounds(b, COORD_LIMIT as int),
    ensures
        r == sub_spec(a, b),
        in_bounds(r, DOT_IN_LIMIT as int),
{
    Point3D { x: a.x - b.x, y: a.y - b.y, z: a.z - b.z }
}

/// Fixed-point dot product of two bounded vectors.
pub fn dot_product(a: Point3D, b: Point3D) -> (r: i64)
    requires
        in_bounds(a, DOT_IN_LIMIT as int),
        in_bounds(b, DOT_IN_LIMIT as int),
    ensures
        r == dot_spec(a, b),
        -DOT_OUT_LIMIT <= r <= DOT_OUT_LIMIT,
{
    proof {
        lemma_dot_spec_bound(a, b);
    }
    let px: i128 = (a.x as i128) * (b.x as i128);
    let py: i128 = (a.y as i128) * (b.y as i128);
    let pz: i128 = (a.z as i128) * (b.z as i128);
    let sum: i128 = px + py + pz;
    let q: i128 = div_trunc(sum, SCALE as i128);
    proof {
        lemma_tdiv_abs_bound(sum as int, SCALE as int, 3377699720527872);
        assert(3377699720527872int / 65536 == 51539607552);
    }
    q as i64
}

} // verus!
