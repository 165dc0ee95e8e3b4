use raytracer::fixed::{div_trunc, isqrt};
use raytracer::geom::{dot_product, subtract, Point3D};

fn p3(x: i64, y: i64, z: i64) -> Point3D {
    Point3D { x, y, z }
}

#[test]
fn division_truncates_toward_zero() {
    assert_eq!(div_trunc(7, 2), 3);
    assert_eq!(div_trunc(-7, 2), -3);
    assert_eq!(div_trunc(6, 3), 2);
    assert_eq!(div_trunc(-6, 3), -2);
    assert_eq!(div_trunc(0, 5), 0);
}

#[test]
fn integer_square_root_is_floored() {
    assert_eq!(isqrt(0), 0);
    assert_eq!(isqrt(1), 1);
    assert_eq!(isqrt(3), 1);
    assert_eq!(isqrt(4), 2);
    assert_eq!(isqrt(10), 3);
    assert_eq!(isqrt(65536), 256);
    assert_eq!(isqrt(65535), 255);
    assert_eq!(isqrt(1 << 70), 1 << 35);
}

#[test]
fn subtract_is_componentwise() {
    assert_eq!(
        subtract(p3(10, 20, 30), p3(1, 2, 3)),
        p3(9, 18, 27)
    );
}

#[test]
fn dot_product_rescales_once() {
    // 1.0 . 1.0 over three equal components: 3 * 65536^2 / 65536.
    let one = p3(65536, 65536, 65536);
    assert_eq!(dot_product(one, one), 3 * 65536);
    // truncation happens after the sum: (3 * 100^2) / 65536 = 0.
    let tiny = p3(100, 100, 100);
    assert_eq!(dot_product(tiny, tiny), 0);
}
