use raytracer::canvas::Canvas;
use raytracer::color::Color;
use raytracer::fixed::{SCALE, T_INF};
use raytracer::geom::{Point2D, Point3D};
use raytracer::intersect::intersect_ray_sphere;
use raytracer::render::{render, render_rev};
use raytracer::scene::Scene;
use raytracer::sphere::Sphere;

fn p3(x: i64, y: i64, z: i64) -> Point3D {
    Point3D { x, y, z }
}

fn red() -> Color {
    Color::new(255, 0, 0)
}

fn blue() -> Color {
    Color::new(0, 0, 255)
}

fn green() -> Color {
    Color::new(0, 255, 0)
}

fn black() -> Color {
    Color::new(0, 0, 0)
}

/// The three-sphere scene over a black background, camera at the
/// origin, unit viewport one unit ahead.
fn three_sphere_scene() -> Scene {
    let spheres = vec![
        Sphere::new(p3(0, -SCALE, 3 * SCALE), SCALE, red()),
        Sphere::new(p3(2 * SCALE, 0, 4 * SCALE), SCALE, blue()),
        Sphere::new(p3(-2 * SCALE, 0, 4 * SCALE), SCALE, green()),
    ];
    Scene::with_config(p3(0, 0, 0), spheres, black(), SCALE, SCALE)
}

#[test]
fn axis_sphere_two_finite_ordered_roots() {
    // A sphere two units ahead on the camera axis, radius one, with the
    // ray aimed straight at its center: roots at exactly 2.0 and 4.0.
    let sphere = Sphere::new(p3(0, 0, 3 * SCALE), SCALE, red());
    let (t1, t2) = intersect_ray_sphere(p3(0, 0, 0), p3(0, 0, SCALE), &sphere);
    assert_eq!(t1, 2 * SCALE);
    assert_eq!(t2, 4 * SCALE);
    assert!(t1 <= t2);
    assert!(t1 < T_INF && t2 < T_INF);
}

#[test]
fn roots_ordered_for_grazing_ray() {
    // An off-center ray that still hits: the roots stay ordered.
    let sphere = Sphere::new(p3(0, 0, 3 * SCALE), SCALE, red());
    let (t1, t2) = intersect_ray_sphere(p3(0, 0, 0), p3(SCALE / 4, 0, SCALE), &sphere);
    assert!(t1 <= t2);
}

#[test]
fn missing_ray_gives_sentinel_for_every_sphere() {
    // A direction pointing up and away from all three spheres.
    let scene = three_sphere_scene();
    let dir = p3(0, 2 * SCALE, -2 * SCALE);
    for sphere in &scene.spheres {
        let (t1, t2) = intersect_ray_sphere(p3(0, 0, 0), dir, sphere);
        assert_eq!(t1, T_INF);
        assert_eq!(t2, T_INF);
    }
}

#[test]
fn missing_ray_traces_to_background() {
    let scene = three_sphere_scene();
    let dir = p3(0, 2 * SCALE, -2 * SCALE);
    assert_eq!(scene.trace_ray(dir, SCALE, T_INF), black());
}

#[test]
fn behind_camera_sphere_traces_to_background() {
    // Straight back: the line through the red sphere's mirror image is
    // never inside (min_t, max_t), so only the background remains.
    let scene = three_sphere_scene();
    assert_eq!(scene.trace_ray(p3(0, 0, -SCALE), SCALE, T_INF), black());
}

#[test]
fn three_sphere_scene_traces_known_colors() {
    // On a 600x600 canvas: slightly below center hits the red sphere,
    // right of center the blue one, left of center the green one, and a
    // corner ray nothing at all.
    let scene = three_sphere_scene();
    let cases: [(i64, i64, Color); 4] = [
        (0, -100, red()),
        (250, 0, blue()),
        (-250, 0, green()),
        (280, 280, black()),
    ];
    for (x, y, want) in cases {
        let dir = scene.canvas_to_viewport(Point2D { x, y }, 600, 600);
        assert_eq!(scene.trace_ray(dir, SCALE, T_INF), want);
    }
}

#[test]
fn viewport_mapping_is_exact() {
    let scene = three_sphere_scene();
    let dir = scene.canvas_to_viewport(Point2D { x: 0, y: -100 }, 600, 600);
    assert_eq!(dir, p3(0, -10922, SCALE));
}

#[test]
fn put_pixel_on_boundary_succeeds() {
    // width 8: centered x = 3 is the last column inside the canvas.
    let mut canvas = Canvas::new(8, 8);
    canvas.put_pixel(3, 0, red());
    assert_eq!(canvas.get_pixel(7, 4), red());
}

#[test]
fn put_pixel_past_boundary_is_noop() {
    let mut canvas = Canvas::new(8, 8);
    canvas.put_pixel(4, 0, red());
    canvas.put_pixel(100, -3, blue());
    canvas.put_pixel(0, 5, green());
    for x in 0..8 {
        for y in 0..8 {
            assert_eq!(canvas.get_pixel(x, y), black());
        }
    }
}

#[test]
fn new_canvas_is_black() {
    let canvas = Canvas::new(5, 9);
    assert_eq!(canvas.width(), 5);
    assert_eq!(canvas.height(), 9);
    for x in 0..5 {
        for y in 0..9 {
            assert_eq!(canvas.get_pixel(x, y), black());
        }
    }
}

#[test]
fn put_then_get_round_trips() {
    let mut canvas = Canvas::new(10, 10);
    canvas.put_pixel(-2, 3, blue());
    // centered (-2, 3) lands at storage (5 - 2, 5 - 3) = (3, 2).
    assert_eq!(canvas.get_pixel(3, 2), blue());
    assert_eq!(canvas.get_pixel(2, 3), black());
}

#[test]
fn rendering_twice_is_identical() {
    let scene = three_sphere_scene();
    let mut first = Canvas::new(50, 50);
    let mut second = Canvas::new(50, 50);
    render(&scene, &mut first, SCALE, T_INF);
    render(&scene, &mut second, SCALE, T_INF);
    for x in 0..50 {
        for y in 0..50 {
            assert_eq!(first.get_pixel(x, y), second.get_pixel(x, y));
        }
    }
}

#[test]
fn reversed_scan_renders_identical_image() {
    let scene = three_sphere_scene();
    let mut forward = Canvas::new(50, 50);
    let mut backward = Canvas::new(50, 50);
    render(&scene, &mut forward, SCALE, T_INF);
    render_rev(&scene, &mut backward, SCALE, T_INF);
    for x in 0..50 {
        for y in 0..50 {
            assert_eq!(forward.get_pixel(x, y), backward.get_pixel(x, y));
        }
    }
}

#[test]
fn render_paints_hit_pixels() {
    // A sphere dead ahead: the canvas center must end up red on a
    // white background.
    let spheres = vec![Sphere::new(p3(0, 0, 3 * SCALE), SCALE / 2, red())];
    let scene = Scene::new(spheres);
    let mut canvas = Canvas::new(40, 40);
    render(&scene, &mut canvas, SCALE, T_INF);
    assert_eq!(canvas.get_pixel(20, 19), red());
    // the corner stays at the background color.
    assert_eq!(canvas.get_pixel(0, 39), Color::new(255, 255, 255));
}

#[test]
fn default_scene_has_expected_configuration() {
    let scene = Scene::new(vec![]);
    assert_eq!(scene.camera_pos, p3(0, 0, 0));
    assert_eq!(scene.background, Color::new(255, 255, 255));
    assert_eq!(scene.viewport_size, SCALE);
    assert_eq!(scene.projection_plane_distance, SCALE);
}

#[test]
fn nearer_sphere_wins() {
    // Two spheres on the axis; the nearer one's color is returned.
    let spheres = vec![
        Sphere::new(p3(0, 0, 6 * SCALE), SCALE, blue()),
        Sphere::new(p3(0, 0, 3 * SCALE), SCALE, red()),
    ];
    let scene = Scene::with_config(p3(0, 0, 0), spheres, black(), SCALE, SCALE);
    assert_eq!(scene.trace_ray(p3(0, 0, SCALE), SCALE, T_INF), red());
}

#[test]
fn tie_goes_to_first_sphere_in_scan_order() {
    // Two identical spheres: the first in scene order wins the tie.
    let spheres = vec![
        Sphere::new(p3(0, 0, 3 * SCALE), SCALE, green()),
        Sphere::new(p3(0, 0, 3 * SCALE), SCALE, blue()),
    ];
    let scene = Scene::with_config(p3(0, 0, 0), spheres, black(), SCALE, SCALE);
    assert_eq!(scene.trace_ray(p3(0, 0, SCALE), SCALE, T_INF), green());
}

#[test]
fn depth_range_excludes_far_hits() {
    // The sphere sits between 2.0 and 4.0 along the ray; a max_t of 1.5
    // puts it out of range.
    let spheres = vec![Sphere::new(p3(0, 0, 3 * SCALE), SCALE, red())];
    let scene = Scene::with_config(p3(0, 0, 0), spheres, black(), SCALE, SCALE);
    assert_eq!(scene.trace_ray(p3(0, 0, SCALE), SCALE, 3 * SCALE / 2), black());
    assert_eq!(scene.trace_ray(p3(0, 0, SCALE), SCALE, 3 * SCALE), red());
}

#[test]
fn empty_scene_traces_to_background() {
    let scene = Scene::with_config(p3(0, 0, 0), vec![], black(), SCALE, SCALE);
    assert_eq!(scene.trace_ray(p3(0, 0, SCALE), SCALE, T_INF), black());
}

#[test]
fn depth_range_bounds_are_exclusive() {
    // The axis sphere's roots are exactly 2.0 and 4.0.  With min_t at
    // the first root only the second still counts; with max_t at the
    // second root as well, nothing does.
    let spheres = vec![Sphere::new(p3(0, 0, 3 * SCALE), SCALE, red())];
    let scene = Scene::with_config(p3(0, 0, 0), spheres, black(), SCALE, SCALE);
    assert_eq!(scene.trace_ray(p3(0, 0, SCALE), 2 * SCALE, T_INF), red());
    assert_eq!(scene.trace_ray(p3(0, 0, SCALE), 2 * SCALE, 4 * SCALE), black());
}
