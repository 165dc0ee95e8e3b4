//! The scene: camera, sphere list, background color and viewport
//! geometry, with the two operations of the render pipeline that read
//! it: mapping a canvas coordinate to a ray direction, and tracing a
//! ray to the color of its nearest hit.

use vstd::prelude::*;
use crate::color::Color;
use crate::fixed::{COORD_LIMIT, SCALE, T_INF, tdiv, lemma_tdiv_abs_bound};
use crate::geom::{Point2D, Point3D, in_bounds};
use crate::intersect::{k1_spec, roots_spec, intersect_ray_sphere};
use crate::sphere::Sphere;

verus! {

/// Largest canvas width or height the viewport mapping accepts.
pub const DIM_LIMIT: u32 = 16384;

/// Smallest projection-plane distance: the fixed-point square of any
/// smaller value truncates to zero, which would make the ray direction
/// degenerate.
pub const MIN_PLANE_DIST: i64 = 256;

/// A scene: read-only during a render.
pub struct Scene {
    pub camera_pos: Point3D,
    pub spheres: Vec<Sphere>,
    pub background: Color,
    pub viewport_size: i64,
    pub projection_plane_distance: i64,
}

/// One step of the nearest-hit scan: fold the two roots of `s` into the
/// running `(closest_t, closest_color)` state, keeping a root only when
/// it is strictly inside `(min_t, max_t)` and strictly closer than the
/// best so far, first root first.
pub open spec fn scan_step(
    state: (int, Option<Color>),
    s: Sphere,
    origin: Point3D,
    dir: Point3D,
    min_t: int,
    max_t: int,
) -> (int, Option<Color>) {
    let rt = roots_spec(origin, dir, s);
    let mid = if rt.0 < state.0 && min_t < rt.0 && rt.0 < max_t {
        (rt.0, Some(s.color))
    } else {
        state
    };
    if rt.1 < mid.0 && min_t < rt.1 && rt.1 < max_t {
        (rt.1, Some(s.color))
    } else {
        mid
    }
}

/// The nearest-hit scan over a sphere sequence, in scene order,
/// starting from "no hit yet".
pub open spec fn scan_spec(
    spheres: Seq<Sphere>,
    origin: Point3D,
    dir: Point3D,
    min_t: int,
    max_t: int,
) -> (int, Option<Color>)
    decreases spheres.len(),
{
    if spheres.len() == 0 {
        (T_INF as int, None::<Color>)
    } else {
        scan_step(
            scan_spec(spheres.drop_last(), origin, dir, min_t, max_t),
            spheres.last(),
            origin,
            dir,
            min_t,
            max_t,
        )
    }
}

/// The color a ray traces to: the color of the nearest sphere hit
/// strictly inside `(min_t, max_t)`, or the background color.
pub open spec fn trace_spec(scene: Scene, dir: Point3D, min_t: int, max_t: int) -> Color {
    match scan_spec(scene.spheres@, scene.camera_pos, dir, min_t, max_t).1 {
        Some(c) => c,
        None => scene.background,
    }
}

/// Neither root of any sphere lies strictly inside `(min_t, max_t)`.
pub open spec fn ray_misses(
    spheres: Seq<Sphere>,
    origin: Point3D,
    dir: Point3D,
    min_t: int,
    max_t: int,
) -> bool {
    forall|i: int|
        0 <= i < spheres.len() ==> {
            let rt = #[trigger] roots_spec(origin, dir, spheres[i]);
            !(min_t < rt.0 < max_t) && !(min_t < rt.1 < max_t)
        }
}

/// The scan finds no sphere exactly when the ray misses every sphere;
/// and while nothing is found the running parameter is still `T_INF`.
pub proof fn lemma_scan_none_iff_miss(
    spheres: Seq<Sphere>,
    origin: Point3D,
    dir: Point3D,
    min_t: int,
    max_t: int,
)
    requires
        max_t <= T_INF as int,
    ensures
        scan_spec(spheres, origin, dir, min_t, max_t).1 is None <==> ray_misses(
            spheres,
            origin,
            dir,
            min_t,
            max_t,
        ),
        scan_spec(spheres, origin, dir, min_t, max_t).1 is None ==> scan_spec(
            spheres,
            origin,
            dir,
            min_t,
            max_t,
        ).0 == T_INF as int,
    decreases spheres.len(),
{
    if spheres.len() > 0 {
        lemma_scan_none_iff_miss(spheres.drop_last(), origin, dir, min_t, max_t);
        let prev = scan_spec(spheres.drop_last(), origin, dir, min_t, max_t);
        let rt = roots_spec(origin, dir, spheres.last());
        assert(spheres.drop_last() =~= spheres.subrange(0, spheres.len() - 1));
        if scan_spec(spheres, origin, dir, min_t, max_t).1 is None {
            assert(forall|i: int|
                0 <= i < spheres.len() - 1 ==> {
                    let r = #[trigger] roots_spec(origin, dir, spheres.drop_last()[i]);
                    !(min_t < r.0 < max_t) && !(min_t < r.1 < max_t)
                });
            assert(forall|i: int|
                0 <= i < spheres.len() ==> spheres[i] == if i < spheres.len() - 1 {
                    spheres.drop_last()[i]
                } else {
                    spheres.last()
                });
        } else {
            if !ray_misses(spheres.drop_last(), origin, dir, min_t, max_t) {
                let i = choose|i: int|
                    0 <= i < spheres.drop_last().len() && !{
                        let r = #[trigger] roots_spec(origin, dir, spheres.drop_last()[i]);
                        !(min_t < r.0 < max_t) && !(min_t < r.1 < max_t)
                    };
                assert(spheres[i] == spheres.drop_last()[i]);
                assert(!ray_misses(spheres, origin, dir, min_t, max_t));
            } else {
                assert(prev.1 is None && prev.0 == T_INF as int);
                assert(min_t < rt.0 < max_t || min_t < rt.1 < max_t);
                assert(spheres.last() == spheres[spheres.len() - 1]);
                assert(!ray_misses(spheres, origin, dir, min_t, max_t));
            }
        }
    }
}

/// A ray that misses every sphere traces to the background color.
pub proof fn lemma_miss_traces_background(scene: Scene, dir: Point3D, min_t: int, max_t: int)
    requires
        max_t <= T_INF as int,
        ray_misses(scene.spheres@, scene.camera_pos, dir, min_t, max_t),
    ensures
        trace_spec(scene, dir, min_t, max_t) == scene.background,
{
    lemma_scan_none_iff_miss(scene.spheres@, scene.camera_pos, dir, min_t, max_t);
}

impl Scene {
    /// A well-formed scene: every coordinate within range, every sphere
    /// well-formed, and a projection plane far enough that no ray
    /// direction degenerates.
    pub open spec fn wf(self) -> bool {
        &&& in_bounds(self.camera_pos, COORD_LIMIT as int)
        &&& forall|i: int| 0 <= i < self.spheres@.len() ==> (#[trigger] self.spheres@[i]).wf()
        &&& 0 <= self.viewport_size <= COORD_LIMIT
        &&& MIN_PLANE_DIST <= self.projection_plane_distance <= COORD_LIMIT
    }

    /// Builds the default scene of the renderer: camera at the origin,
    /// a unit viewport one unit ahead, and a white background.
    pub fn new(spheres: Vec<Sphere>) -> (s: Scene)
        requires
            forall|i: int| 0 <= i < spheres@.len() ==> (#[trigger] spheres@[i]).wf(),
        ensures
            s.wf(),
            s.spheres == spheres,
            s.camera_pos == (Point3D { x: 0, y: 0, z: 0 }),
            s.background == (Color { r: 255, g: 255, b: 255 }),
            s.viewport_size == SCALE,
            s.projection_plane_distance == SCALE,
    {
        Scene {
            camera_pos: Point3D { x: 0, y: 0, z: 0 },
            spheres,
            background: Color { r: 255, g: 255, b: 255 },
            viewport_size: SCALE,
            projection_plane_distance: SCALE,
        }
    }

    /// Builds a scene from every field.
    pub fn with_config(
        camera_pos: Point3D,
        spheres: Vec<Sphere>,
        background: Color,
        viewport_size: i64,
        projection_plane_distance: i64,
    ) -> (s: Scene)
        requires
            in_bounds(camera_pos, COORD_LIMIT as int),
            forall|i: int| 0 <= i < spheres@.len() ==> (#[trigger] spheres@[i]).wf(),
            0 <= viewport_size <= COORD_LIMIT,
            MIN_PLANE_DIST <= projection_plane_distance <= COORD_LIMIT,
        ensures
            s.wf(),
            s == (Scene {
                camera_pos,
                spheres,
                background,
                viewport_size,
                projection_plane_distance,
            }),
    {
        Scene { camera_pos, spheres, background, viewport_size, projection_plane_distance }
    }

    /// The ray direction for the centered canvas coordinate `p`:
    /// `(p.x * viewport_size / width, p.y * viewport_size / height,
    /// projection_plane_distance)`.
    pub open spec fn viewport_spec(self, p: Point2D, width: int, height: int) -> Point3D {
        Point3D {
            x: tdiv(p.x * self.viewport_size, width) as i64,
            y: tdiv(p.y * self.viewport_size, height) as i64,
            z: self.projection_plane_distance as i64,
        }
    }

    /// Maps a centered canvas coordinate to the ray direction through
    /// the viewport plane.  The result is bounded and non-degenerate.
    pub fn canvas_to_viewport(&self, p: Point2D, width: u32, height: u32) -> (r: Point3D)
        requires
            self.wf(),
            1 <= width <= DIM_LIMIT,
            1 <= height <= DIM_LIMIT,
            -(width as int) <= p.x <= width as int,
            -(height as int) <= p.y <= height as int,
        ensures
            r == self.viewport_spec(p, width as int, height as int),
            in_bounds(r, COORD_LIMIT as int),
            k1_spec(r) >= 1,
    {
        proof {
            lemma_viewport_component(p.x as int, self.viewport_size as int, width as int);
            lemma_viewport_component(p.y as int, self.viewport_size as int, height as int);
        }
        let dx: i64 = (p.x * self.viewport_size) / (width as i64);
        let dy: i64 = (p.y * self.viewport_size) / (height as i64);
        let r = Point3D { x: dx, y: dy, z: self.projection_plane_distance };
        proof {
            lemma_direction_not_degenerate(r);
        }
        r
    }

    /// Traces the ray from the camera through `direction`, scanning
    /// every sphere in scene order and keeping the closest hit strictly
    /// inside `(min_t, max_t)`; returns that sphere's color, or the
    /// background color when nothing is hit.
    pub fn trace_ray(&self, direction: Point3D, min_t: i64, max_t: i64) -> (c: Color)
        requires
            self.wf(),
            in_bounds(direction, COORD_LIMIT as int),
            k1_spec(direction) >= 1,
        ensures
            c == trace_spec(*self, direction, min_t as int, max_t as int),
    {
        let origin = self.camera_pos;
        let mut closest_t: i64 = T_INF;
        let mut closest_color: Option<Color> = None;
        let n = self.spheres.len();
        let mut i: usize = 0;
        while i < n
            invariant
                self.wf(),
                in_bounds(direction, COORD_LIMIT as int),
                k1_spec(direction) >= 1,
                n == self.spheres@.len(),
                0 <= i <= n,
                origin == self.camera_pos,
                (closest_t as int, closest_color) == scan_spec(
                    self.spheres@.subrange(0, i as int),
                    origin,
                    direction,
                    min_t as int,
                    max_t as int,
                ),
            decreases n - i,
        {
            let ghost prefix = self.spheres@.subrange(0, i as int);
            let sphere = &self.spheres[i];
            let ts = intersect_ray_sphere(origin, direction, sphere);
            if ts.0 < closest_t && min_t < ts.0 && ts.0 < max_t {
                closest_t = ts.0;
                closest_color = Some(sphere.color);
            }
            if ts.1 < closest_t && min_t < ts.1 && ts.1 < max_t {
                closest_t = ts.1;
                closest_color = Some(sphere.color);
            }
            proof {
                let next = self.spheres@.subrange(0, i + 1);
                assert(next.drop_last() =~= prefix);
                assert(next.last() == self.spheres@[i as int]);
            }
            i = i + 1;
        }
        proof {
            assert(self.spheres@.subrange(0, n as int) =~= self.spheres@);
        }
        match closest_color {
            None => self.background,
            Some(c) => c,
        }
    }
}

/// One viewport component `p * v / d` stays within the coordinate limit
/// whenever `|p| <= d` and `0 <= v <= COORD_LIMIT`.
proof fn lemma_viewport_component(p: int, v: int, d: int)
    requires
        1 <= d <= DIM_LIMIT,
        -d <= p <= d,
        0 <= v <= COORD_LIMIT,
    ensures
        -COORD_LIMIT <= tdiv(p * v, d) <= COORD_LIMIT,
        -274877906944 <= p * v <= 274877906944,
{
    assert(-(d * v) <= p * v <= d * v) by (nonlinear_arith)
        requires
            -d <= p <= d,
            0 <= v,
    ;
    assert(d * v <= 274877906944) by (nonlinear_arith)
        requires
            0 <= d <= 16384,
            0 <= v <= 16777216,
    ;
    assert(0 <= v <= 16777216);
    lemma_tdiv_abs_bound(p * v, d, d * v);
    vstd::arithmetic::div_mod::lemma_div_multiples_vanish(v, d);
    assert(d * v == v * d) by (nonlinear_arith);
    assert((d * v) / d == v);
}

/// A direction whose `z` component is at least `MIN_PLANE_DIST` is not
/// degenerate: the fixed-point square of its length is at least one.
proof fn lemma_direction_not_degenerate(r: Point3D)
    requires
        r.z >= MIN_PLANE_DIST,
    ensures
        k1_spec(r) >= 1,
{
    assert(r.x * r.x >= 0) by (nonlinear_arith);
    assert(r.y * r.y >= 0) by (nonlinear_arith);
    assert(r.z * r.z >= 65536) by (nonlinear_arith)
        requires
            r.z >= 256,
    ;
    let sum = r.x * r.x + r.y * r.y + r.z * r.z;
    assert(sum >= 65536);
    vstd::arithmetic::div_mod::lemma_div_is_ordered(65536, sum, SCALE as int);
    assert(65536int / 65536 == 1);
    assert(tdiv(sum, SCALE as int) == sum / (SCALE as int));
}

} // verus!
