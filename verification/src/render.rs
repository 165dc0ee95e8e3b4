//! The render loop: every canvas pixel gets the color traced along its
//! ray.  The result is pinned pixel by pixel, so rendering is
//! deterministic and any evaluation order yields the same image; a
//! reversed scan is provided and meets the same contract.

use vstd::prelude::*;
use crate::canvas::{Canvas, put_pixel_spec};
use crate::color::Color;
use crate::geom::Point2D;
use crate::scene::{Scene, trace_spec};

verus! {

/// A color as the channel triple a canvas stores.
pub open spec fn color_triple(c: Color) -> (u8, u8, u8) {
    (c.r, c.g, c.b)
}

/// The color the render loop assigns to the storage coordinate
/// `(sx, sy)`: the trace of the ray through the centered coordinate
/// that maps there.
pub open spec fn pixel_color(
    scene: Scene,
    w: int,
    h: int,
    sx: int,
    sy: int,
    min_t: int,
    max_t: int,
) -> Color {
    trace_spec(
        scene,
        scene.viewport_spec(Point2D { x: (sx - w / 2) as i64, y: (h / 2 - sy) as i64 }, w, h),
        min_t,
        max_t,
    )
}

/// Whether the scan over centered coordinates reaches the storage
/// coordinate `(sx, sy)`: the loop covers columns `0 .. 2*(w/2)` and
/// rows `1 ..= 2*(h/2)`, clipped to the canvas.  Storage row 0 is never
/// reached, and an odd width leaves the last column untouched; both
/// keep their initial color.
pub open spec fn covered(w: int, h: int, sx: int, sy: int) -> bool {
    &&& sx < 2 * (w / 2)
    &&& 1 <= sy <= 2 * (h / 2)
    &&& sy < h
}

/// The final pixel grid of a render over the initial grid `pix0`: every
/// covered coordinate holds its ray's color, every other coordinate is
/// untouched.
pub open spec fn rendered(
    scene: Scene,
    pix0: Map<(u32, u32), (u8, u8, u8)>,
    pix: Map<(u32, u32), (u8, u8, u8)>,
    w: int,
    h: int,
    min_t: int,
    max_t: int,
) -> bool {
    forall|xy: (u32, u32)|
        xy.0 < w && xy.1 < h ==> #[trigger] pix[xy] == (if covered(w, h, xy.0 as int, xy.1 as int) {
            color_triple(pixel_color(scene, w, h, xy.0 as int, xy.1 as int, min_t, max_t))
        } else {
            pix0[xy]
        })
}

/// Renders one column of the scan: every covered row of storage column
/// `w/2 + x` gets its ray's color; nothing else changes.
fn render_column(scene: &Scene, canvas: &mut Canvas, x: i32, min_t: i64, max_t: i64)
    requires
        scene.wf(),
        old(canvas).wf(),
        -(old(canvas).width as int / 2) <= x as int,
        (x as int) < old(canvas).width as int / 2,
    ensures
        final(canvas).wf(),
        final(canvas).width == old(canvas).width,
        final(canvas).height == old(canvas).height,
        forall|xy: (u32, u32)|
            xy.0 < old(canvas).width && xy.1 < old(canvas).height ==> #[trigger] final(canvas).pixels()[xy] == (if xy.0 as int == old(canvas).width as int / 2 + x && covered(
                old(canvas).width as int,
                old(canvas).height as int,
                xy.0 as int,
                xy.1 as int,
            ) {
                color_triple(
                    pixel_color(
                        *scene,
                        old(canvas).width as int,
                        old(canvas).height as int,
                        xy.0 as int,
                        xy.1 as int,
                        min_t as int,
                        max_t as int,
                    ),
                )
            } else {
                old(canvas).pixels()[xy]
            }),
{
    let w = canvas.width();
    let h = canvas.height();
    let half_h: i32 = (h as i32) / 2;
    let ghost sxc: int = w as int / 2 + x;
    let ghost pix0 = canvas.pixels();
    let mut y: i32 = -half_h;
    while y < half_h
        invariant
            scene.wf(),
            canvas.wf(),
            canvas.width == w,
            canvas.height == h,
            1 <= w <= 16384,
            1 <= h <= 16384,
            half_h == h as int / 2,
            sxc == w as int / 2 + x,
            0 <= sxc < 2 * (w as int / 2),
            -(w as int / 2) <= x as int,
            (x as int) < w as int / 2,
            -half_h <= y <= half_h,
            pix0 == old(canvas).pixels(),
            forall|xy: (u32, u32)|
                xy.0 < w && xy.1 < h ==> #[trigger] canvas.pixels()[xy] == (if xy.0 as int == sxc
                    && covered(w as int, h as int, xy.0 as int, xy.1 as int) && xy.1 as int > h
                    as int / 2 - y {
                    color_triple(
                        pixel_color(
                            *scene,
                            w as int,
                            h as int,
                            xy.0 as int,
                            xy.1 as int,
                            min_t as int,
                            max_t as int,
                        ),
                    )
                } else {
                    pix0[xy]
                }),
        decreases half_h - y,
    {
        let ghost prev = canvas.pixels();
        let dir = scene.canvas_to_viewport(Point2D { x: x as i64, y: y as i64 }, w, h);
        let color = scene.trace_ray(dir, min_t, max_t);
        canvas.put_pixel(x, y, color);
        proof {
            let wi = w as int;
            let hi = h as int;
            let sx = wi / 2 + x as int;
            let sy = hi / 2 - y as int;
            assert(canvas.pixels() == put_pixel_spec(prev, wi, hi, x as int, y as int, color));
            assert(1 <= sy <= 2 * (hi / 2));
            assert forall|xy: (u32, u32)| xy.0 < w && xy.1 < h implies #[trigger] canvas.pixels()[xy]
                == (if xy.0 as int == sxc && covered(wi, hi, xy.0 as int, xy.1 as int) && xy.1
                as int > hi / 2 - (y + 1) {
                color_triple(
                    pixel_color(
                        *scene,
                        wi,
                        hi,
                        xy.0 as int,
                        xy.1 as int,
                        min_t as int,
                        max_t as int,
                    ),
                )
            } else {
                pix0[xy]
            }) by {
                if sy < hi && xy == ((sx as u32, sy as u32)) {
                    assert(covered(wi, hi, sx, sy));
                    assert((sx - wi / 2) as i64 == x as i64);
                    assert((hi / 2 - sy) as i64 == y as i64);
                    assert(pixel_color(*scene, wi, hi, sx, sy, min_t as int, max_t as int)
                        == color);
                }
            }
        }
        y = y + 1;
    }
}

/// Renders the scene onto the canvas, scanning columns left to right.
pub fn render(scene: &Scene, canvas: &mut Canvas, min_t: i64, max_t: i64)
    requires
        scene.wf(),
        old(canvas).wf(),
    ensures
        final(canvas).wf(),
        final(canvas).width == old(canvas).width,
        final(canvas).height == old(canvas).height,
        rendered(
            *scene,
            old(canvas).pixels(),
            final(canvas).pixels(),
            old(canvas).width as int,
            old(canvas).height as int,
            min_t as int,
            max_t as int,
        ),
{
    let w = canvas.width();
    let half_w: i32 = (w as i32) / 2;
    let ghost pix0 = canvas.pixels();
    let mut x: i32 = -half_w;
    while x < half_w
        invariant
            scene.wf(),
            canvas.wf(),
            canvas.width == w == old(canvas).width,
            canvas.height == old(canvas).height,
            half_w == w as int / 2,
            -half_w <= x <= half_w,
            pix0 == old(canvas).pixels(),
            forall|xy: (u32, u32)|
                xy.0 < w && xy.1 < canvas.height ==> #[trigger] canvas.pixels()[xy] == (if (xy.0
                    as int) < w as int / 2 + x && covered(
                    w as int,
                    canvas.height as int,
                    xy.0 as int,
                    xy.1 as int,
                ) {
                    color_triple(
                        pixel_color(
                            *scene,
                            w as int,
                            canvas.height as int,
                            xy.0 as int,
                            xy.1 as int,
                            min_t as int,
                            max_t as int,
                        ),
                    )
                } else {
                    pix0[xy]
                }),
        decreases half_w - x,
    {
        let ghost prev = canvas.pixels();
        render_column(scene, canvas, x, min_t, max_t);
        x = x + 1;
    }
}

/// Renders the scene onto the canvas, scanning columns right to left;
/// it meets exactly the contract of `render`.
pub fn render_rev(scene: &Scene, canvas: &mut Canvas, min_t: i64, max_t: i64)
    requires
        scene.wf(),
        old(canvas).wf(),
    ensures
        final(canvas).wf(),
        final(canvas).width == old(canvas).width,
        final(canvas).height == old(canvas).height,
        rendered(
            *scene,
            old(canvas).pixels(),
            final(canvas).pixels(),
            old(canvas).width as int,
            old(canvas).height as int,
            min_t as int,
            max_t as int,
        ),
{
    let w = canvas.width();
    let half_w: i32 = (w as i32) / 2;
    let ghost pix0 = canvas.pixels();
    let mut x: i32 = half_w;
    while x > -half_w
        invariant
            scene.wf(),
            canvas.wf(),
            canvas.width == w == old(canvas).width,
            canvas.height == old(canvas).height,
            half_w == w as int / 2,
            -half_w <= x <= half_w,
            pix0 == old(canvas).pixels(),
            forall|xy: (u32, u32)|
                xy.0 < w && xy.1 < canvas.height ==> #[trigger] canvas.pixels()[xy] == (if (xy.0
                    as int) >= w as int / 2 + x && covered(
                    w as int,
                    canvas.height as int,
                    xy.0 as int,
                    xy.1 as int,
                ) {
                    color_triple(
                        pixel_color(
                            *scene,
                            w as int,
                            canvas.height as int,
                            xy.0 as int,
                            xy.1 as int,
                            min_t as int,
                            max_t as int,
                        ),
                    )
                } else {
                    pix0[xy]
                }),
        decreases x + half_w,
    {
        x = x - 1;
        render_column(scene, canvas, x, min_t, max_t);
    }
}

/// The render contract pins every pixel: two renders of the same scene
/// over the same initial grid end in identical images, whatever order
/// their pixels were evaluated in.  This is at once determinism and the
/// independence that makes the loop safe to parallelize.
pub proof fn lemma_rendered_unique(
    scene: Scene,
    pix0: Map<(u32, u32), (u8, u8, u8)>,
    pix1: Map<(u32, u32), (u8, u8, u8)>,
    pix2: Map<(u32, u32), (u8, u8, u8)>,
    w: int,
    h: int,
    min_t: int,
    max_t: int,
)
    requires
        rendered(scene, pix0, pix1, w, h, min_t, max_t),
        rendered(scene, pix0, pix2, w, h, min_t, max_t),
        forall|xy: (u32, u32)| pix1.dom().contains(xy) <==> (xy.0 < w && xy.1 < h),
        forall|xy: (u32, u32)| pix2.dom().contains(xy) <==> (xy.0 < w && xy.1 < h),
    ensures
        pix1 == pix2,
{
    assert(pix1 =~= pix2);
}

} // verus!

