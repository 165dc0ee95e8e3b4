//! Ray-sphere intersection: the two roots of the quadratic obtained by
//! substituting the parametric ray into the sphere equation, or the
//! `T_INF` sentinel pair when the discriminant is negative.

use vstd::prelude::*;
use crate::fixed::{
    COORD_LIMIT, SCALE, T_INF, tdiv, div_trunc, isqrt, sqrt_floor, lemma_tdiv_abs_bound,
    lemma_tdiv_monotone, lemma_sqrt_floor_bounds,
};
use crate::geom::{
    Point3D, in_bounds, sub_spec, dot_spec, subtract, dot_product, lemma_dot_spec_bound,
    lemma_dot_spec_self_nonneg,
};
use crate::sphere::Sphere;

verus! {

/// Largest magnitude either root can have when the ray hits the sphere;
/// well below `T_INF`.
pub const ROOT_LIMIT: i64 = 12384898975268864;

/// Quadratic coefficient: the direction dotted with itself.
pub open spec fn k1_spec(dir: Point3D) -> int {
    dot_spec(dir, dir)
}

/// Linear coefficient: twice the dot of (origin - center) with the
/// direction.
pub open spec fn k2_spec(origin: Point3D, dir: Point3D, s: Sphere) -> int {
    2 * dot_spec(sub_spec(origin, s.center), dir)
}

/// Constant coefficient: |origin - center|^2 minus the squared radius.
pub open spec fn k3_spec(origin: Point3D, s: Sphere) -> int {
    dot_spec(sub_spec(origin, s.center), sub_spec(origin, s.center)) - tdiv(
        s.radius * s.radius,
        SCALE as int,
    )
}

/// The rescaled discriminant `(k2^2 - 4*k1*k3) / SCALE`.
pub open spec fn disc_spec(origin: Point3D, dir: Point3D, s: Sphere) -> int {
    tdiv(
        k2_spec(origin, dir, s) * k2_spec(origin, dir, s) - 4 * (k1_spec(dir) * k3_spec(
            origin,
            s,
        )),
        SCALE as int,
    )
}

/// The two ray parameters where the ray meets the sphere, smaller one
/// first, or `(T_INF, T_INF)` when it does not.
pub open spec fn roots_spec(origin: Point3D, dir: Point3D, s: Sphere) -> (int, int) {
    let k1 = k1_spec(dir);
    let k2 = k2_spec(origin, dir, s);
    let d = disc_spec(origin, dir, s);
    if d < 0 {
        (T_INF as int, T_INF as int)
    } else {
        let sq = sqrt_floor((d * SCALE) as nat) as int;
        (tdiv((-k2 - sq) * SCALE, 2 * k1), tdiv((-k2 + sq) * SCALE, 2 * k1))
    }
}

/// Solves the ray-sphere quadratic exactly in fixed-point arithmetic.
/// A degenerate direction (`k1_spec(direction) < 1`) is a caller
/// contract violation and is excluded.
pub fn intersect_ray_sphere(origin: Point3D, direction: Point3D, sphere: &Sphere) -> (r: (
    i64,
    i64,
))
    requires
        in_bounds(origin, COORD_LIMIT as int),
        in_bounds(direction, COORD_LIMIT as int),
        sphere.wf(),
        k1_spec(direction) >= 1,
    ensures
        (r.0 as int, r.1 as int) == roots_spec(origin, direction, *sphere),
        r.0 <= r.1,
        disc_spec(origin, direction, *sphere) >= 0 ==> -ROOT_LIMIT <= r.0 <= r.1 <= ROOT_LIMIT,
        disc_spec(origin, direction, *sphere) < 0 ==> r.0 == T_INF && r.1 == T_INF,
{
    let oc = subtract(origin, sphere.center);
    let k1 = dot_product(direction, direction);
    let k2 = 2 * dot_product(oc, direction);
    proof {
        lemma_dot_spec_self_nonneg(direction);
        lemma_dot_spec_bound(oc, direction);
        lemma_dot_spec_bound(oc, oc);
        assert((sphere.radius as int) * (sphere.radius as int) <= 281474976710656)
            by (nonlinear_arith)
            requires
                0 <= sphere.radius <= 16777216,
        ;
        assert((sphere.radius as int) * (sphere.radius as int) >= 0) by (nonlinear_arith);
    }
    let rr: i128 = (sphere.radius as i128) * (sphere.radius as i128);
    let rrs: i128 = div_trunc(rr, SCALE as i128);
    proof {
        lemma_tdiv_abs_bound(rr as int, SCALE as int, 281474976710656);
        assert(281474976710656int / 65536 == 4294967296);
    }
    let k3: i64 = dot_product(oc, oc) - (rrs as i64);
    let k1w: i128 = k1 as i128;
    let k2w: i128 = k2 as i128;
    let k3w: i128 = k3 as i128;
    proof {
        assert((k2w as int) * (k2w as int) <= 10625324586456701730816) by (nonlinear_arith)
            requires
                -103079215104 <= k2w <= 103079215104,
        ;
        assert((k2w as int) * (k2w as int) >= 0) by (nonlinear_arith);
        assert(-2877692075498690052096 <= (k1w as int) * (k3w as int)
            <= 2877692075498690052096) by (nonlinear_arith)
            requires
                0 <= k1w <= 51539607552,
                -55834574848 <= k3w <= 55834574848,
        ;
    }
    let raw: i128 = k2w * k2w - 4 * (k1w * k3w);
    let disc: i128 = div_trunc(raw, SCALE as i128);
    proof {
        lemma_tdiv_abs_bound(raw as int, SCALE as int, 22136092888451461939200);
        assert(22136092888451461939200int / 65536 == 337769972052787200);
    }
    if disc < 0 {
        (T_INF, T_INF)
    } else {
        let n: u128 = (disc as u128) * (SCALE as u128);
        proof {
            assert((disc as int) * 65536 <= 22136092888451461939200) by (nonlinear_arith)
                requires
                    0 <= disc <= 337769972052787200,
            ;
        }
        let sq128: u128 = isqrt(n);
        proof {
            lemma_sqrt_floor_bounds(n as nat);
            assert(sq128 < 274877906944) by (nonlinear_arith)
                requires
                    (sq128 as int) * (sq128 as int) <= n as int,
                    n < 75557863725914323419136,
                    sq128 >= 0,
            ;
        }
        let sq: i128 = sq128 as i128;
        let num1: i128 = (0 - k2w - sq) * (SCALE as i128);
        let num2: i128 = (0 - k2w + sq) * (SCALE as i128);
        proof {
            assert((0 - k2w - sq) * 65536 <= 24769797950537728 && (0 - k2w - sq) * 65536
                >= -24769797950537728) by (nonlinear_arith)
                requires
                    -377957122048 <= 0 - k2w - sq <= 377957122048,
            ;
            assert((0 - k2w + sq) * 65536 <= 24769797950537728 && (0 - k2w + sq) * 65536
                >= -24769797950537728) by (nonlinear_arith)
                requires
                    -377957122048 <= 0 - k2w + sq <= 377957122048,
            ;
        }
        let den: i128 = 2 * k1w;
        let t1: i128 = div_trunc(num1, den);
        let t2: i128 = div_trunc(num2, den);
        proof {
            lemma_tdiv_abs_bound(num1 as int, den as int, 24769797950537728);
            lemma_tdiv_abs_bound(num2 as int, den as int, 24769797950537728);
            vstd::arithmetic::div_mod::lemma_div_is_ordered_by_denominator(
                24769797950537728,
                2,
                den as int,
            );
            assert(24769797950537728int / 2 == 12384898975268864);
            lemma_tdiv_monotone(num1 as int, num2 as int, den as int);
        }
        (t1 as i64, t2 as i64)
    }
}

} // verus!
