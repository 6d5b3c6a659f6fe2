use software_renderer::color::Color;
use software_renderer::depth::Depth;
use software_renderer::raster::{render, ProjectedTriangle, ScreenVertex};
use software_renderer::target::RenderTarget;

fn assert_cleared(t: &RenderTarget) {
    assert_eq!(t.pixels.len(), t.width * t.height);
    assert_eq!(t.depth_buffer.len(), t.width * t.height);
    assert!(t.pixels.iter().all(|p| *p == Color::black()));
    assert!(t.depth_buffer.iter().all(|d| *d == Depth::Infinite));
}

fn draw_something(t: &mut RenderTarget) {
    let z = 2;
    let tri = ProjectedTriangle::new(
        ScreenVertex { x: 0, y: 0, z },
        ScreenVertex { x: 0, y: 480, z },
        ScreenVertex { x: 480, y: 0, z },
        Color::new(9, 8, 7),
    );
    render(&vec![tri], t);
    assert_eq!(t.pixel(1, 1), Color::new(9, 8, 7));
}

#[test]
fn new_target_is_cleared() {
    let t = RenderTarget::new(7, 3);
    assert_eq!(t.size(), (7, 3));
    assert_eq!(t.fov, 60);
    assert_cleared(&t);
}

#[test]
fn clear_resets_every_pixel_and_depth() {
    let mut t = RenderTarget::new(40, 30);
    draw_something(&mut t);
    t.clear();
    assert_cleared(&t);
    assert_eq!(t.size(), (40, 30));
}

#[test]
fn resize_gives_buffers_of_the_new_shape() {
    let mut t = RenderTarget::new(100, 100);
    draw_something(&mut t);
    assert!(t.resize(50, 200));
    assert_eq!(t.size(), (50, 200));
    assert_eq!(t.pixels.len(), 50 * 200);
    assert_cleared(&t);
    assert_eq!(t.pixel(49, 199), Color::black());
    assert!(t.depth(49, 199).is_infinite());
}

#[test]
fn resize_to_a_zero_side_is_refused() {
    let mut t = RenderTarget::new(100, 100);
    draw_something(&mut t);
    assert!(!t.resize(0, 200));
    assert!(!t.resize(50, 0));
    assert_eq!(t.size(), (100, 100));
    assert_eq!(t.pixel(1, 1), Color::new(9, 8, 7));
}

#[test]
fn resize_beyond_the_largest_side_is_refused() {
    let mut t = RenderTarget::new(4, 4);
    assert!(!t.resize(40000, 4));
    assert_eq!(t.size(), (4, 4));
}

#[test]
fn cells_are_stored_row_by_row() {
    let mut t = RenderTarget::new(5, 4);
    t.pixels[2 * 5 + 3] = Color::new(1, 1, 1);
    assert_eq!(t.pixel(3, 2), Color::new(1, 1, 1));
    assert_eq!(t.pixel(2, 3), Color::black());
}

#[test]
fn colour_channels() {
    let c = Color::new(10, 20, 30);
    assert_eq!((c.r(), c.g(), c.b()), (10, 20, 30));
    let _ = Color::random();
}

#[test]
fn frame_bytes_are_rgba_row_by_row() {
    let mut t = RenderTarget::new(2, 2);
    t.pixels[1] = Color::new(1, 2, 3);
    t.pixels[2] = Color::new(4, 5, 6);
    assert_eq!(
        t.to_rgba(),
        vec![0, 0, 0, 255, 1, 2, 3, 255, 4, 5, 6, 255, 0, 0, 0, 255]
    );
}
