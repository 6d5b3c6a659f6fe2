use software_renderer::color::Color;
use software_renderer::geometry::Point2;
use software_renderer::triangle::{point_on_right_side_of_line, Triangle2D};

fn pt(x: i64, y: i64) -> Point2 {
    Point2::new(x, y)
}

#[test]
fn interior_point_is_covered_with_weights_between_zero_and_one() {
    let t = Triangle2D::new(pt(0, 0), pt(0, 160), pt(160, 0));
    let (inside, w) = t.contains_point(pt(32, 48));
    assert!(inside);
    assert!(w.total > 0);
    assert_eq!(w.wa + w.wb + w.wc, w.total);
    for part in [w.wa, w.wb, w.wc] {
        assert!(0 < part && part < w.total);
    }
    let sum = w.wa as f64 / w.total as f64 + w.wb as f64 / w.total as f64 + w.wc as f64 / w.total as f64;
    assert!((sum - 1.0).abs() <= 1e-5);
}

#[test]
fn weights_are_the_sub_triangle_areas() {
    let t = Triangle2D::new(pt(0, 0), pt(0, 160), pt(160, 0));
    let (_, w) = t.contains_point(pt(32, 48));
    assert_eq!(w.wa, Triangle2D::triangle_area(pt(0, 160), pt(160, 0), pt(32, 48)));
    assert_eq!(w.wb, Triangle2D::triangle_area(pt(160, 0), pt(0, 0), pt(32, 48)));
    assert_eq!(w.wc, Triangle2D::triangle_area(pt(0, 0), pt(0, 160), pt(32, 48)));
    assert_eq!(w.total, 25600);
    assert_eq!(w.wa, 25600 - 32 * 160 - 48 * 160);
}

#[test]
fn collinear_corners_cover_nothing() {
    let t = Triangle2D::new(pt(0, 0), pt(16, 16), pt(32, 32));
    for (x, y) in [(0, 0), (16, 16), (8, 8), (10, 20), (-5, 3), (100, -100)] {
        let (inside, w) = t.contains_point(pt(x, y));
        assert!(!inside);
        assert_eq!(w.total, 0);
    }
}

#[test]
fn boundary_points_are_covered() {
    let t = Triangle2D::new(pt(0, 0), pt(0, 160), pt(160, 0));
    assert!(t.contains_point(pt(0, 0)).0);
    assert!(t.contains_point(pt(0, 80)).0);
    assert!(t.contains_point(pt(80, 80)).0);
    assert!(!t.contains_point(pt(81, 80)).0);
    assert!(!t.contains_point(pt(-1, 0)).0);
}

#[test]
fn opposite_winding_covers_nothing() {
    let t = Triangle2D::new(pt(0, 0), pt(160, 0), pt(0, 160));
    assert!(Triangle2D::triangle_area(pt(0, 0), pt(160, 0), pt(0, 160)) < 0);
    assert!(!t.contains_point(pt(32, 48)).0);
}

#[test]
fn triangle_area_is_twice_the_signed_area() {
    assert_eq!(Triangle2D::triangle_area(pt(0, 0), pt(0, 4), pt(3, 0)), 12);
    assert_eq!(Triangle2D::triangle_area(pt(0, 0), pt(3, 0), pt(0, 4)), -12);
    assert_eq!(Triangle2D::triangle_area(pt(1, 1), pt(2, 2), pt(3, 3)), 0);
}

#[test]
fn vector_operations() {
    let a = pt(3, -4);
    let b = pt(5, 7);
    assert_eq!(a.add(&b), pt(8, 3));
    assert_eq!(a.sub(&b), pt(-2, -11));
    assert_eq!(a.dot(&b), 15 - 28);
    assert_eq!(a.rotate_clockwise(), pt(-4, -3));
    assert_eq!(Point2::of_pixel(3, 5), pt(48, 80));
}

#[test]
fn new_triangle_is_white_and_takes_a_colour() {
    let mut t = Triangle2D::new(pt(0, 0), pt(0, 1), pt(1, 0));
    assert_eq!(t.color, Color::new(255, 255, 255));
    t.set_color(Color::new(1, 2, 3));
    assert_eq!(t.color, Color::new(1, 2, 3));
    assert_eq!(t.a, pt(0, 0));
}

#[test]
fn side_of_a_line() {
    // Looking from (0, 0) towards (0, 16) with y pointing up, points with
    // larger x are on the right.
    assert!(point_on_right_side_of_line(pt(0, 0), pt(0, 16), pt(5, 3)));
    assert!(point_on_right_side_of_line(pt(0, 0), pt(0, 16), pt(0, 30)));
    assert!(!point_on_right_side_of_line(pt(0, 0), pt(0, 16), pt(-5, 3)));
}
