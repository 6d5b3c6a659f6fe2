use software_renderer::color::Color;
use software_renderer::depth::Depth;
use software_renderer::raster::{draw_triangle, render, ProjectedTriangle, ScreenVertex};
use software_renderer::target::RenderTarget;

fn v(x: i64, y: i64, z: i32) -> ScreenVertex {
    ScreenVertex { x, y, z }
}

fn red() -> Color {
    Color::new(255, 0, 0)
}

fn blue() -> Color {
    Color::new(0, 0, 255)
}

fn flat(z: i32, color: Color) -> ProjectedTriangle {
    ProjectedTriangle::new(v(160, 160, z), v(160, 800, z), v(800, 160, z), color)
}

fn assert_untouched(t: &RenderTarget, x: usize, y: usize) {
    assert_eq!(t.pixel(x, y), Color::black());
    assert!(t.depth(x, y).is_infinite());
}

#[test]
fn nearer_triangle_wins_whatever_the_order() {
    for order in [vec![flat(5, red()), flat(3, blue())], vec![flat(3, blue()), flat(5, red())]] {
        let mut target = RenderTarget::new(100, 100);
        render(&order, &mut target);
        for (x, y) in [(15, 15), (10, 10), (20, 30), (40, 10)] {
            assert_eq!(target.pixel(x, y), blue());
            assert!(target.depth(x, y).equals_int(3));
        }
        assert_untouched(&target, 80, 80);
    }
}

#[test]
fn equal_depth_keeps_the_first_triangle() {
    let mut target = RenderTarget::new(100, 100);
    render(&vec![flat(4, red()), flat(4, blue())], &mut target);
    assert_eq!(target.pixel(15, 15), red());
    assert!(target.depth(15, 15).equals_int(4));
}

// Corners of the triangle (0,0,5), (0,1,5), (1,0,5) seen through a 60 degree
// field of view on a 100 by 100 target: 50 + 17.3205 pixels is 1077 units.
fn scenario_triangle(b: ScreenVertex, c: ScreenVertex) -> ProjectedTriangle {
    ProjectedTriangle::new(v(800, 800, 5), b, c, red())
}

#[test]
fn single_red_triangle_scenario() {
    let tri = scenario_triangle(v(800, 1077, 5), v(1077, 800, 5));
    let mut target = RenderTarget::new(100, 100);
    assert_eq!(target.fov, 60);
    render(&vec![tri], &mut target);
    assert_eq!(target.pixel(50, 50), red());
    assert!(target.depth(50, 50).equals_int(5));
    assert_eq!(target.pixel(60, 52), red());
    assert!(target.depth(60, 52).equals_int(5));
    for (x, y) in [(0, 0), (10, 10), (90, 90), (99, 99), (49, 50), (50, 49), (68, 50)] {
        assert_untouched(&target, x, y);
    }
}

#[test]
fn scenario_triangle_in_the_other_winding_is_not_drawn() {
    let tri = scenario_triangle(v(1077, 800, 5), v(800, 1077, 5));
    let mut target = RenderTarget::new(100, 100);
    render(&vec![tri], &mut target);
    for (x, y) in [(50, 50), (55, 55), (60, 52)] {
        assert_untouched(&target, x, y);
    }
}

#[test]
fn interpolated_depth_is_exact() {
    // Depth 0 at the left corner, 8 at the two others: at pixel (2, 0) the
    // depth is 8 * 32 / 64 = 4.
    let tri = ProjectedTriangle::new(v(0, 0, 0), v(0, 64, 8), v(64, 0, 8), red());
    let mut target = RenderTarget::new(10, 10);
    draw_triangle(&mut target, &tri);
    assert_eq!(target.pixel(2, 0), red());
    assert!(target.depth(2, 0).equals_int(4));
    assert_eq!(target.depth(2, 0), Depth::Finite { num: 4 * 4096, den: 4096 });
    assert!(target.depth(0, 0).equals_int(0));
}

#[test]
fn triangle_partly_off_screen_is_clipped_to_the_target() {
    // The long edge runs along x + y = 20 pixels.
    let tri = ProjectedTriangle::new(v(-800, -800, 1), v(-800, 1120, 1), v(1120, -800, 1), red());
    let mut target = RenderTarget::new(20, 20);
    draw_triangle(&mut target, &tri);
    for (x, y) in [(0, 0), (10, 0), (0, 10), (10, 10), (19, 1)] {
        assert_eq!(target.pixel(x, y), red());
    }
    assert_untouched(&target, 12, 12);
    assert_untouched(&target, 19, 19);
}

#[test]
fn triangle_entirely_off_screen_draws_nothing() {
    let tri = ProjectedTriangle::new(v(-800, -800, 1), v(-800, -400, 1), v(-400, -800, 1), red());
    let mut target = RenderTarget::new(20, 20);
    draw_triangle(&mut target, &tri);
    for y in 0..20 {
        for x in 0..20 {
            assert_untouched(&target, x, y);
        }
    }
}

#[test]
fn render_clears_what_was_drawn_before() {
    let mut target = RenderTarget::new(100, 100);
    render(&vec![flat(3, blue())], &mut target);
    assert_eq!(target.pixel(15, 15), blue());
    render(&vec![], &mut target);
    assert_untouched(&target, 15, 15);
}

#[test]
fn validity_of_projected_triangles() {
    assert!(flat(1, red()).is_valid());
    let far = ProjectedTriangle::new(v(0, 0, 1), v(0, 2_000_000, 1), v(1, 0, 1), red());
    assert!(!far.is_valid());
    assert_eq!(flat(1, red()).to_2d().color, red());
}

#[test]
fn depth_comparisons() {
    let three = Depth::Finite { num: 6, den: 2 };
    let five = Depth::Finite { num: 5, den: 1 };
    assert!(three.is_nearer_than(&five));
    assert!(!five.is_nearer_than(&three));
    assert!(!three.is_nearer_than(&three));
    assert!(three.is_nearer_than(&Depth::Infinite));
    assert!(!Depth::Infinite.is_nearer_than(&three));
    assert!(!Depth::Infinite.is_nearer_than(&Depth::Infinite));
    assert!(three.equals_int(3));
    assert!(!five.equals_int(3));
    assert!(!Depth::Infinite.equals_int(0));
}

#[test]
fn shared_edge_pixels_are_covered_by_both_triangles() {
    // Two halves of a square share the diagonal x + y = 10 pixels; a pixel on it
    // is covered by each half, so the nearer one wins there.
    let left = ProjectedTriangle::new(v(0, 0, 5), v(0, 160, 5), v(160, 0, 5), red());
    let right = ProjectedTriangle::new(v(160, 0, 3), v(0, 160, 3), v(160, 160, 3), blue());
    assert!(left.to_2d().contains_point(software_renderer::geometry::Point2::of_pixel(5, 5)).0);
    assert!(right.to_2d().contains_point(software_renderer::geometry::Point2::of_pixel(5, 5)).0);
    let mut target = RenderTarget::new(20, 20);
    render(&vec![left, right], &mut target);
    assert_eq!(target.pixel(5, 5), blue());
    assert_eq!(target.pixel(2, 2), red());
    assert_eq!(target.pixel(8, 8), blue());
}
