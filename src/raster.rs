use vstd::prelude::*;
use crate::color::Color;
use crate::depth::Depth;
use crate::geometry::{Point2, COORD_LIMIT, SUBPIXEL_UNITS, lemma_mul_abs_bound};
use crate::target::{RenderTarget, MAX_DIMENSION, lemma_cell_index, lemma_cells_distinct};
use crate::triangle::{
    Barycentric, Triangle2D, AREA_LIMIT, lemma_area_bound, lemma_covered_point_in_bounds,
};

verus! {

/// A vertex after projection: its screen position in subpixel units and its raw depth.
#[derive(Debug, Clone, Copy, PartialEq, Eq, Structural)]
pub struct ScreenVertex {
    pub x: i64,
    pub y: i64,
    pub z: i32,
}

/// A triangle after projection, with the colour it is drawn in.
#[derive(Debug, Clone, Copy, PartialEq, Eq, Structural)]
pub struct ProjectedTriangle {
    pub a: ScreenVertex,
    pub b: ScreenVertex,
    pub c: ScreenVertex,
    pub color: Color,
}

/// `v` clamped to the pixel range `0 ..= limit - 1`.
pub open spec fn clamp_to(v: int, limit: int) -> int {
    if v < 0 {
        0
    } else if v > limit - 1 {
        limit - 1
    } else {
        v
    }
}

pub open spec fn min3(a: int, b: int, c: int) -> int {
    if a <= b && a <= c {
        a
    } else if b <= c {
        b
    } else {
        c
    }
}

pub open spec fn max3(a: int, b: int, c: int) -> int {
    if a >= b && a >= c {
        a
    } else if b >= c {
        b
    } else {
        c
    }
}

/// The first pixel column (or row) of a span that starts at `lo` subpixel units.
pub open spec fn span_start(lo: int, limit: int) -> int {
    clamp_to(lo / (SUBPIXEL_UNITS as int), limit)
}

/// The last pixel column (or row) of a span that ends at `hi` subpixel units.
pub open spec fn span_end(hi: int, limit: int) -> int {
    clamp_to((hi + SUBPIXEL_UNITS - 1) / (SUBPIXEL_UNITS as int), limit)
}

/// The screen point where pixel `(x, y)` is sampled.
pub open spec fn sample_point(x: int, y: int) -> Point2 {
    Point2 { x: (x * SUBPIXEL_UNITS) as i64, y: (y * SUBPIXEL_UNITS) as i64 }
}

impl ProjectedTriangle {
    /// Every corner lies at a valid screen position.
    pub open spec fn wf(&self) -> bool {
        self.to_2d_spec().wf()
    }

    pub open spec fn to_2d_spec(&self) -> Triangle2D {
        Triangle2D {
            a: Point2 { x: self.a.x, y: self.a.y },
            b: Point2 { x: self.b.x, y: self.b.y },
            c: Point2 { x: self.c.x, y: self.c.y },
            color: self.color,
        }
    }

    /// Pixel `(x, y)` of a `width` by `height` target lies in the triangle's
    /// bounding box of pixels, clamped to the target.
    pub open spec fn box_holds(&self, width: int, height: int, x: int, y: int) -> bool {
        &&& span_start(min3(self.a.x as int, self.b.x as int, self.c.x as int), width) <= x
        &&& x <= span_end(max3(self.a.x as int, self.b.x as int, self.c.x as int), width)
        &&& span_start(min3(self.a.y as int, self.b.y as int, self.c.y as int), height) <= y
        &&& y <= span_end(max3(self.a.y as int, self.b.y as int, self.c.y as int), height)
    }

    /// The depth of the triangle at a point with barycentric weights `w`: the
    /// vertex depths weighted by `w`, kept as an exact fraction.
    pub open spec fn depth_with(&self, w: Barycentric) -> Depth {
        Depth::Finite {
            num: (self.a.z * w.wa + self.b.z * w.wb + self.c.z * w.wc) as i128,
            den: w.total,
        }
    }

    /// The triangle's depth at the sample point of pixel `(x, y)`.
    pub open spec fn fragment_depth(&self, x: int, y: int) -> Depth {
        self.depth_with(self.to_2d_spec().weights(sample_point(x, y)))
    }

    /// The triangle draws pixel `(x, y)` over a cell that holds depth `d`: the
    /// pixel is in its box, covered, and the triangle is strictly nearer there.
    pub open spec fn draws(&self, width: int, height: int, x: int, y: int, d: Depth) -> bool {
        &&& self.box_holds(width, height, x, y)
        &&& self.to_2d_spec().covers(sample_point(x, y))
        &&& self.fragment_depth(x, y).nearer_than(d)
    }

    /// The colour and depth of pixel `(x, y)` after drawing the triangle over a
    /// cell that held `before`.
    pub open spec fn shade(&self, width: int, height: int, x: int, y: int, before: (Color, Depth)) -> (
        Color,
        Depth,
    ) {
        if self.draws(width, height, x, y, before.1) {
            (self.color, self.fragment_depth(x, y))
        } else {
            before
        }
    }

    pub fn new(a: ScreenVertex, b: ScreenVertex, c: ScreenVertex, color: Color) -> (t:
        ProjectedTriangle)
        ensures
            t == (ProjectedTriangle { a, b, c, color }),
    {
        ProjectedTriangle { a, b, c, color }
    }

    /// Whether every corner lies at a valid screen position.
    pub fn is_valid(&self) -> (r: bool)
        ensures
            r == self.wf(),
    {
        let lo = -COORD_LIMIT;
        lo <= self.a.x && self.a.x <= COORD_LIMIT && lo <= self.a.y && self.a.y <= COORD_LIMIT
            && lo <= self.b.x && self.b.x <= COORD_LIMIT && lo <= self.b.y && self.b.y <= COORD_LIMIT
            && lo <= self.c.x && self.c.x <= COORD_LIMIT && lo <= self.c.y && self.c.y <= COORD_LIMIT
    }

    /// The triangle's outline on the screen, with its colour.
    pub fn to_2d(&self) -> (t: Triangle2D)
        ensures
            t == self.to_2d_spec(),
    {
        Triangle2D {
            a: Point2::new(self.a.x, self.a.y),
            b: Point2::new(self.b.x, self.b.y),
            c: Point2::new(self.c.x, self.c.y),
            color: self.color,
        }
    }
}

/// Floor division by the subpixel size keeps order, and undoes scaling by it.
proof fn lemma_div_subpixel(m: int, x: int)
    ensures
        m <= x * SUBPIXEL_UNITS ==> m / (SUBPIXEL_UNITS as int) <= x,
        m >= x * SUBPIXEL_UNITS ==> (m + SUBPIXEL_UNITS - 1) / (SUBPIXEL_UNITS as int) >= x,
{
}

/// A covered pixel always lies in the triangle's clamped bounding box, so the
/// box never hides a pixel that the triangle covers.
pub proof fn lemma_covered_pixel_in_box(tri: ProjectedTriangle, width: int, height: int, x: int, y: int)
    requires
        0 <= x < width <= MAX_DIMENSION,
        0 <= y < height <= MAX_DIMENSION,
        tri.to_2d_spec().covers(sample_point(x, y)),
    ensures
        tri.box_holds(width, height, x, y),
{
    lemma_covered_point_in_bounds(tri.to_2d_spec(), sample_point(x, y));
    let p = sample_point(x, y);
    assert(p.x == x * SUBPIXEL_UNITS && p.y == y * SUBPIXEL_UNITS);
    lemma_div_subpixel(min3(tri.a.x as int, tri.b.x as int, tri.c.x as int), x);
    lemma_div_subpixel(max3(tri.a.x as int, tri.b.x as int, tri.c.x as int), x);
    lemma_div_subpixel(min3(tri.a.y as int, tri.b.y as int, tri.c.y as int), y);
    lemma_div_subpixel(max3(tri.a.y as int, tri.b.y as int, tri.c.y as int), y);
}

/// The colour and depth of pixel `(x, y)` after clearing and drawing `tris` in order.
pub open spec fn pixel_after(tris: Seq<ProjectedTriangle>, width: int, height: int, x: int, y: int) -> (
    Color,
    Depth,
)
    decreases tris.len(),
{
    if tris.len() == 0 {
        (Color { r: 0, g: 0, b: 0 }, Depth::Infinite)
    } else {
        tris.last().shade(width, height, x, y, pixel_after(tris.drop_last(), width, height, x, y))
    }
}

fn min3_i64(a: i64, b: i64, c: i64) -> (r: i64)
    ensures
        r == min3(a as int, b as int, c as int),
{
    if a <= b && a <= c {
        a
    } else if b <= c {
        b
    } else {
        c
    }
}

fn max3_i64(a: i64, b: i64, c: i64) -> (r: i64)
    ensures
        r == max3(a as int, b as int, c as int),
{
    if a >= b && a >= c {
        a
    } else if b >= c {
        b
    } else {
        c
    }
}

/// The first pixel of the span starting at `lo`, as `span_start` defines it.
fn first_pixel(lo: i64, limit: usize) -> (r: usize)
    requires
        0 < limit <= MAX_DIMENSION,
    ensures
        r == span_start(lo as int, limit as int),
        r < limit,
{
    if lo <= 0 {
        assert((lo as int) / (SUBPIXEL_UNITS as int) <= 0);
        0
    } else {
        let q: u64 = lo as u64 / SUBPIXEL_UNITS as u64;
        if q > (limit - 1) as u64 {
            limit - 1
        } else {
            q as usize
        }
    }
}

/// The last pixel of the span ending at `hi`, as `span_end` defines it.
fn last_pixel(hi: i64, limit: usize) -> (r: usize)
    requires
        0 < limit <= MAX_DIMENSION,
        hi < i64::MAX - SUBPIXEL_UNITS,
    ensures
        r == span_end(hi as int, limit as int),
        r < limit,
{
    if hi <= 0 {
        assert((hi as int + SUBPIXEL_UNITS - 1) / (SUBPIXEL_UNITS as int) <= 0);
        0
    } else {
        let q: u64 = (hi as u64 + (SUBPIXEL_UNITS - 1) as u64) / SUBPIXEL_UNITS as u64;
        if q > (limit - 1) as u64 {
            limit - 1
        } else {
            q as usize
        }
    }
}

/// At a pixel covered by a triangle whose corners all lie at depth `z`, the
/// triangle's depth is exactly `z`.
pub proof fn lemma_flat_triangle_depth(tri: ProjectedTriangle, width: int, height: int, x: int, y: int)
    requires
        tri.wf(),
        0 <= x < width <= MAX_DIMENSION,
        0 <= y < height <= MAX_DIMENSION,
        tri.a.z == tri.b.z,
        tri.b.z == tri.c.z,
        tri.to_2d_spec().covers(sample_point(x, y)),
    ensures
        tri.fragment_depth(x, y).has_value(tri.a.z as int),
        tri.fragment_depth(x, y).wf(),
{
    let t = tri.to_2d_spec();
    let p = sample_point(x, y);
    lemma_area_bound(t.b, t.c, p);
    lemma_area_bound(t.c, t.a, p);
    lemma_area_bound(t.a, t.b, p);
    let w = t.weights(p);
    let z = tri.a.z as int;
    assert(z * w.wa + z * w.wb + z * w.wc == z * w.total) by (nonlinear_arith)
        requires
            w.total == w.wa + w.wb + w.wc,
    ;
    lemma_mul_abs_bound(z, w.total as int, 2147483648, 3 * AREA_LIMIT);
}

/// Two triangles with the same outline on the screen, each flat at its own
/// depth, one strictly nearer than the other: at every pixel that the outline
/// covers, drawing both, in either order, leaves the nearer triangle's colour
/// and exactly its depth.
pub proof fn lemma_nearer_triangle_wins(
    near: ProjectedTriangle,
    far: ProjectedTriangle,
    width: int,
    height: int,
    x: int,
    y: int,
)
    requires
        near.wf(),
        far.a.x == near.a.x && far.a.y == near.a.y,
        far.b.x == near.b.x && far.b.y == near.b.y,
        far.c.x == near.c.x && far.c.y == near.c.y,
        near.a.z == near.b.z && near.b.z == near.c.z,
        far.a.z == far.b.z && far.b.z == far.c.z,
        near.a.z < far.a.z,
        0 <= x < width <= MAX_DIMENSION,
        0 <= y < height <= MAX_DIMENSION,
        near.to_2d_spec().covers(sample_point(x, y)),
    ensures
        pixel_after(seq![far, near], width, height, x, y).0 == near.color,
        pixel_after(seq![far, near], width, height, x, y).1.has_value(near.a.z as int),
        pixel_after(seq![near, far], width, height, x, y).0 == near.color,
        pixel_after(seq![near, far], width, height, x, y).1.has_value(near.a.z as int),
{
    let p = sample_point(x, y);
    assert(far.to_2d_spec().covers(p) == near.to_2d_spec().covers(p));
    lemma_covered_pixel_in_box(near, width, height, x, y);
    lemma_covered_pixel_in_box(far, width, height, x, y);
    lemma_flat_triangle_depth(near, width, height, x, y);
    lemma_flat_triangle_depth(far, width, height, x, y);
    let total = near.to_2d_spec().weights(p).total as int;
    assert(far.to_2d_spec().weights(p).total == total);
    let (zn, zf) = (near.a.z as int, far.a.z as int);
    assert((zn * total) * total < (zf * total) * total) by (nonlinear_arith)
        requires
            zn < zf,
            total > 0,
    ;
    let dn = near.fragment_depth(x, y);
    let df = far.fragment_depth(x, y);
    assert(dn.nearer_than(df));
    assert(!df.nearer_than(dn));
    assert(seq![far, near].drop_last() =~= seq![far]);
    assert(seq![near, far].drop_last() =~= seq![near]);
    assert(seq![far].drop_last() =~= Seq::<ProjectedTriangle>::empty());
    assert(seq![near].drop_last() =~= Seq::<ProjectedTriangle>::empty());
    reveal_with_fuel(pixel_after, 3);
}

/// After drawing a list of triangles into a cleared target, a pixel's depth is
/// infinite exactly when none of the triangles covers it, and such a pixel is
/// still black.
pub proof fn lemma_depth_infinite_iff_uncovered(
    tris: Seq<ProjectedTriangle>,
    width: int,
    height: int,
    x: int,
    y: int,
)
    requires
        0 <= x < width <= MAX_DIMENSION,
        0 <= y < height <= MAX_DIMENSION,
    ensures
        (pixel_after(tris, width, height, x, y).1 == Depth::Infinite) <==> (forall|k: int|
            0 <= k < tris.len() ==> !(#[trigger] tris[k]).to_2d_spec().covers(sample_point(x, y))),
        pixel_after(tris, width, height, x, y).1 == Depth::Infinite ==> pixel_after(
            tris,
            width,
            height,
            x,
            y,
        ).0 == Color::black_spec(),
    decreases tris.len(),
{
    if tris.len() > 0 {
        let rest = tris.drop_last();
        let t = tris.last();
        lemma_depth_infinite_iff_uncovered(rest, width, height, x, y);
        if t.to_2d_spec().covers(sample_point(x, y)) {
            lemma_covered_pixel_in_box(t, width, height, x, y);
            assert(!(forall|k: int|
                0 <= k < tris.len() ==> !(#[trigger] tris[k]).to_2d_spec().covers(sample_point(x, y))))
                by {
                assert(tris[tris.len() - 1] == t);
            }
        } else {
            assert forall|k: int| 0 <= k < tris.len() && (forall|j: int|
                0 <= j < rest.len() ==> !(#[trigger] rest[j]).to_2d_spec().covers(
                    sample_point(x, y),
                )) implies !(#[trigger] tris[k]).to_2d_spec().covers(sample_point(x, y)) by {
                if k < rest.len() {
                    assert(tris[k] == rest[k]);
                }
            }
            assert forall|j: int| 0 <= j < rest.len() && (forall|k: int|
                0 <= k < tris.len() ==> !(#[trigger] tris[k]).to_2d_spec().covers(
                    sample_point(x, y),
                )) implies !(#[trigger] rest[j]).to_2d_spec().covers(sample_point(x, y)) by {
                assert(tris[j] == rest[j]);
            }
        }
    }
}

/// The exact depth at a point with weights `w`, as `depth_with` defines it.
fn depth_from_weights(tri: &ProjectedTriangle, w: &Barycentric) -> (d: Depth)
    requires
        -AREA_LIMIT <= w.wa <= AREA_LIMIT,
        -AREA_LIMIT <= w.wb <= AREA_LIMIT,
        -AREA_LIMIT <= w.wc <= AREA_LIMIT,
        w.total == w.wa + w.wb + w.wc,
        w.total > 0,
    ensures
        d == tri.depth_with(*w),
        d.wf(),
{
    proof {
        lemma_mul_abs_bound(tri.a.z as int, w.wa as int, 2147483648, AREA_LIMIT as int);
        lemma_mul_abs_bound(tri.b.z as int, w.wb as int, 2147483648, AREA_LIMIT as int);
        lemma_mul_abs_bound(tri.c.z as int, w.wc as int, 2147483648, AREA_LIMIT as int);
    }
    let num = tri.a.z as i128 * w.wa + tri.b.z as i128 * w.wb + tri.c.z as i128 * w.wc;
    Depth::Finite { num, den: w.total }
}

/// Draws one triangle into the target. Every pixel of the target whose sample
/// point is covered by the triangle, inside the triangle's (clamped) bounding
/// box, and at which the triangle is strictly nearer than the stored depth gets
/// the triangle's colour and depth; every other pixel is left as it was.
pub fn draw_triangle(target: &mut RenderTarget, tri: &ProjectedTriangle)
    requires
        old(target).wf(),
        tri.wf(),
    ensures
        final(target).wf(),
        final(target).width == old(target).width,
        final(target).height == old(target).height,
        final(target).fov == old(target).fov,
        forall|x: int, y: int|
            0 <= x < old(target).width && 0 <= y < old(target).height ==> #[trigger] final(target).cell_at(x, y) == tri.shade(
                old(target).width as int,
                old(target).height as int,
                x,
                y,
                old(target).cell_at(x, y),
            ),
{
    let ghost before = *target;
    let width = target.width;
    let height = target.height;
    let outline = tri.to_2d();
    let start_x = first_pixel(min3_i64(tri.a.x, tri.b.x, tri.c.x), width);
    let end_x = last_pixel(max3_i64(tri.a.x, tri.b.x, tri.c.x), width);
    let start_y = first_pixel(min3_i64(tri.a.y, tri.b.y, tri.c.y), height);
    let end_y = last_pixel(max3_i64(tri.a.y, tri.b.y, tri.c.y), height);
    let mut y = start_y;
    while y <= end_y
        invariant
            target.wf(),
            target.width == width,
            target.height == height,
            target.fov == before.fov,
            before.width == width,
            before.height == height,
            tri.wf(),
            outline == tri.to_2d_spec(),
            start_x == span_start(min3(tri.a.x as int, tri.b.x as int, tri.c.x as int), width as int),
            end_x == span_end(max3(tri.a.x as int, tri.b.x as int, tri.c.x as int), width as int),
            start_y == span_start(min3(tri.a.y as int, tri.b.y as int, tri.c.y as int), height as int),
            end_y == span_end(max3(tri.a.y as int, tri.b.y as int, tri.c.y as int), height as int),
            start_x < width,
            end_x < width,
            end_y < height,
            start_y <= y <= height,
            forall|xx: int, yy: int|
                0 <= xx < width && 0 <= yy < height ==> #[trigger] target.cell_at(xx, yy) == if yy
                    < y {
                    tri.shade(width as int, height as int, xx, yy, before.cell_at(xx, yy))
                } else {
                    before.cell_at(xx, yy)
                },
        decreases height - y,
    {
        let mut x = start_x;
        while x <= end_x
            invariant
                target.wf(),
                target.width == width,
                target.height == height,
                target.fov == before.fov,
                before.width == width,
                before.height == height,
                tri.wf(),
                outline == tri.to_2d_spec(),
                start_x == span_start(min3(tri.a.x as int, tri.b.x as int, tri.c.x as int), width as int),
                end_x == span_end(max3(tri.a.x as int, tri.b.x as int, tri.c.x as int), width as int),
                start_y == span_start(min3(tri.a.y as int, tri.b.y as int, tri.c.y as int), height as int),
                end_y == span_end(max3(tri.a.y as int, tri.b.y as int, tri.c.y as int), height as int),
                end_x < width,
                start_y <= y <= end_y,
                end_y < height,
                start_x <= x <= width,
                forall|xx: int, yy: int|
                    0 <= xx < width && 0 <= yy < height ==> #[trigger] target.cell_at(xx, yy) == if yy
                        < y || (yy == y && xx < x) {
                        tri.shade(width as int, height as int, xx, yy, before.cell_at(xx, yy))
                    } else {
                        before.cell_at(xx, yy)
                    },
            decreases width - x,
        {
            proof {
                lemma_cell_index(width as int, height as int, x as int, y as int);
            }
            let p = Point2::of_pixel(x as u32, y as u32);
            assert(p == sample_point(x as int, y as int));
            let (inside, weights) = outline.contains_point(p);
            let i = y * width + x;
            let ghost prior = *target;
            assert(prior.cell_at(x as int, y as int) == before.cell_at(x as int, y as int));
            if inside {
                let d = depth_from_weights(tri, &weights);
                assert(d == tri.fragment_depth(x as int, y as int));
                if d.is_nearer_than(&target.depth_buffer[i]) {
                    target.pixels.set(i, tri.color);
                    target.depth_buffer.set(i, d);
                    proof {
                        assert forall|xx: int, yy: int|
                            0 <= xx < width && 0 <= yy < height && (xx != x || yy != y) implies #[trigger] target.cell_at(xx, yy)
                            == prior.cell_at(xx, yy) by {
                            lemma_cell_index(width as int, height as int, xx, yy);
                            lemma_cells_distinct(width as int, xx, yy, x as int, y as int);
                        }
                    }
                }
            }
            assert(target.cell_at(x as int, y as int) == tri.shade(
                width as int,
                height as int,
                x as int,
                y as int,
                before.cell_at(x as int, y as int),
            ));
            x = x + 1;
        }
        y = y + 1;
    }
}

/// Clears the target, then draws `triangles` in order. Each pixel ends with the
/// colour and depth of the nearest triangle that covers it (the first of several
/// equally near ones), or black and infinite depth where none does.
pub fn render(triangles: &Vec<ProjectedTriangle>, target: &mut RenderTarget)
    requires
        old(target).wf(),
        forall|k: int| 0 <= k < triangles@.len() ==> (#[trigger] triangles@[k]).wf(),
    ensures
        final(target).wf(),
        final(target).width == old(target).width,
        final(target).height == old(target).height,
        final(target).fov == old(target).fov,
        forall|x: int, y: int|
            0 <= x < old(target).width && 0 <= y < old(target).height ==> #[trigger] final(target).cell_at(x, y) == pixel_after(
                triangles@,
                old(target).width as int,
                old(target).height as int,
                x,
                y,
            ),
{
    target.clear();
    let width = target.width;
    let height = target.height;
    assert forall|x: int, y: int| 0 <= x < width && 0 <= y < height implies #[trigger] target.cell_at(x, y)
        == pixel_after(triangles@.take(0), width as int, height as int, x, y) by {
        lemma_cell_index(width as int, height as int, x, y);
    }
    let mut k: usize = 0;
    while k < triangles.len()
        invariant
            target.wf(),
            target.width == width,
            target.height == height,
            target.fov == old(target).fov,
            old(target).width == width,
            old(target).height == height,
            k <= triangles@.len(),
            forall|j: int| 0 <= j < triangles@.len() ==> (#[trigger] triangles@[j]).wf(),
            forall|x: int, y: int|
                0 <= x < width && 0 <= y < height ==> #[trigger] target.cell_at(x, y) == pixel_after(
                    triangles@.take(k as int),
                    width as int,
                    height as int,
                    x,
                    y,
                ),
        decreases triangles@.len() - k,
    {
        draw_triangle(target, &triangles[k]);
        assert(triangles@.take(k + 1).drop_last() =~= triangles@.take(k as int));
        assert(triangles@.take(k + 1).last() == triangles@[k as int]);
        k = k + 1;
    }
    assert(triangles@.take(k as int) =~= triangles@);
}

} // verus!
