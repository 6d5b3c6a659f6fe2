use vstd::prelude::*;
use crate::color::Color;
use crate::geometry::{Point2, lemma_mul_abs_bound, DIFF_LIMIT};

verus! {

/// Largest magnitude of twice the signed area of a triangle of screen positions.
pub const AREA_LIMIT: i128 = 8796093022208;

/// Twice the signed area of the triangle `(a, b, c)`: the dot product of `c - a`
/// with `b - a` turned clockwise. It is positive when `a, b, c` run clockwise
/// in axes whose `y` points up, which is counterclockwise as seen on a screen
/// whose `y` axis points down.
pub open spec fn twice_area(a: Point2, b: Point2, c: Point2) -> int {
    (c.x - a.x) * (b.y - a.y) - (b.x - a.x) * (c.y - a.y)
}

proof fn lemma_expand(a: int, b: int, c: int, d: int)
    ensures
        (a - b) * (c - d) == a * c - a * d - b * c + b * d,
{
    assert((a - b) * (c - d) == a * c - a * d - b * c + b * d) by (nonlinear_arith);
}

/// The areas of the three sub-triangles that `p` cuts `(a, b, c)` into always add
/// up to the area of `(a, b, c)` itself.
pub proof fn lemma_sub_areas_sum(a: Point2, b: Point2, c: Point2, p: Point2)
    ensures
        twice_area(b, c, p) + twice_area(c, a, p) + twice_area(a, b, p) == twice_area(a, b, c),
{
    let (ax, ay, bx, by, cx, cy, px, py) = (
        a.x as int,
        a.y as int,
        b.x as int,
        b.y as int,
        c.x as int,
        c.y as int,
        p.x as int,
        p.y as int,
    );
    lemma_expand(px, bx, cy, by);
    lemma_expand(cx, bx, py, by);
    lemma_expand(px, cx, ay, cy);
    lemma_expand(ax, cx, py, cy);
    lemma_expand(px, ax, by, ay);
    lemma_expand(bx, ax, py, ay);
    lemma_expand(cx, ax, by, ay);
    lemma_expand(bx, ax, cy, ay);
}

/// Barycentric weights of a point, kept as exact fractions over a common
/// denominator: the weights of the vertices `a`, `b` and `c` are
/// `wa / total`, `wb / total` and `wc / total`.
#[derive(Debug, Clone, Copy, PartialEq, Eq, Structural)]
pub struct Barycentric {
    pub wa: i128,
    pub wb: i128,
    pub wc: i128,
    pub total: i128,
}

/// A triangle in screen space, with the colour it is drawn in.
#[derive(Debug, Clone, Copy, PartialEq, Eq, Structural)]
pub struct Triangle2D {
    pub a: Point2,
    pub b: Point2,
    pub c: Point2,
    pub color: Color,
}

impl Triangle2D {
    /// All three corners are valid screen positions.
    pub open spec fn wf(&self) -> bool {
        self.a.in_range() && self.b.in_range() && self.c.in_range()
    }

    /// The weights of `p`, unnormalised: each is twice the area of the
    /// sub-triangle opposite its vertex.
    pub open spec fn weights(&self, p: Point2) -> Barycentric {
        let wa = twice_area(self.b, self.c, p);
        let wb = twice_area(self.c, self.a, p);
        let wc = twice_area(self.a, self.b, p);
        Barycentric { wa: wa as i128, wb: wb as i128, wc: wc as i128, total: (wa + wb + wc) as i128 }
    }

    /// `p` lies inside the triangle or on its boundary, the triangle is wound
    /// the accepted way round, and it is not degenerate.
    pub open spec fn covers(&self, p: Point2) -> bool {
        let wa = twice_area(self.b, self.c, p);
        let wb = twice_area(self.c, self.a, p);
        let wc = twice_area(self.a, self.b, p);
        wa >= 0 && wb >= 0 && wc >= 0 && wa + wb + wc > 0
    }

    /// A white triangle.
    pub fn new(a: Point2, b: Point2, c: Point2) -> (t: Triangle2D)
        ensures
            t == (Triangle2D { a, b, c, color: Color { r: 255, g: 255, b: 255 } }),
    {
        Triangle2D { a, b, c, color: Color::new(255, 255, 255) }
    }

    pub fn set_color(&mut self, color: Color)
        ensures
            *final(self) == (Triangle2D { color, ..*old(self) }),
    {
        self.color = color;
    }

    /// Twice the signed area of `(a, b, c)`, computed exactly.
    pub fn triangle_area(a: Point2, b: Point2, c: Point2) -> (r: i128)
        requires
            a.in_range(),
            b.in_range(),
            c.in_range(),
        ensures
            r == twice_area(a, b, c),
            -AREA_LIMIT <= r <= AREA_LIMIT,
    {
        let ac = c.sub(&a);
        let ab = b.sub(&a);
        let ab_perpendicular = ab.rotate_clockwise();
        proof {
            lemma_mul_abs_bound(ac.x as int, ab.y as int, DIFF_LIMIT as int, DIFF_LIMIT as int);
            lemma_mul_abs_bound(ab.x as int, ac.y as int, DIFF_LIMIT as int, DIFF_LIMIT as int);
            assert(ac.y * (-ab.x) == -(ab.x * ac.y)) by (nonlinear_arith);
        }
        ac.dot(&ab_perpendicular)
    }

    /// Whether `p` is covered by the triangle, and the barycentric weights of `p`.
    /// A degenerate or oppositely wound triangle covers no point.
    pub fn contains_point(&self, p: Point2) -> (r: (bool, Barycentric))
        requires
            self.wf(),
            p.in_range(),
        ensures
            r.0 == self.covers(p),
            r.1 == self.weights(p),
            r.1.wa == twice_area(self.b, self.c, p),
            r.1.wb == twice_area(self.c, self.a, p),
            r.1.wc == twice_area(self.a, self.b, p),
            r.1.total == r.1.wa + r.1.wb + r.1.wc,
            -AREA_LIMIT <= r.1.wa <= AREA_LIMIT,
            -AREA_LIMIT <= r.1.wb <= AREA_LIMIT,
            -AREA_LIMIT <= r.1.wc <= AREA_LIMIT,
    {
        let area_abp = Self::triangle_area(self.a, self.b, p);
        let area_bcp = Self::triangle_area(self.b, self.c, p);
        let area_cap = Self::triangle_area(self.c, self.a, p);
        let in_triangle = area_abp >= 0 && area_bcp >= 0 && area_cap >= 0;
        let total_area = area_abp + area_bcp + area_cap;
        let weight = Barycentric { wa: area_bcp, wb: area_cap, wc: area_abp, total: total_area };
        (in_triangle && total_area > 0, weight)
    }
}

/// Whether `p` lies on the line through `a` and `b` or on its right, looking
/// from `a` towards `b` in axes whose `y` points up: the signed area of
/// `a, b, p` is not negative.
pub fn point_on_right_side_of_line(a: Point2, b: Point2, p: Point2) -> (r: bool)
    requires
        a.in_range(),
        b.in_range(),
        p.in_range(),
    ensures
        r == (twice_area(a, b, p) >= 0),
{
    Triangle2D::triangle_area(a, b, p) >= 0
}

/// Twice the area of a triangle of screen positions is within `AREA_LIMIT`.
pub proof fn lemma_area_bound(a: Point2, b: Point2, c: Point2)
    requires
        a.in_range(),
        b.in_range(),
        c.in_range(),
    ensures
        -AREA_LIMIT <= twice_area(a, b, c) <= AREA_LIMIT,
{
    lemma_mul_abs_bound(c.x - a.x, b.y - a.y, DIFF_LIMIT as int, DIFF_LIMIT as int);
    lemma_mul_abs_bound(b.x - a.x, c.y - a.y, DIFF_LIMIT as int, DIFF_LIMIT as int);
}

/// The area of `(b, c, p)` written with offsets from `p`.
proof fn lemma_area_from(b: Point2, c: Point2, p: Point2)
    ensures
        twice_area(b, c, p) == (c.x - p.x) * (b.y - p.y) - (b.x - p.x) * (c.y - p.y),
{
    let (vx, vy, wx, wy) = (b.x - p.x, b.y - p.y, c.x - p.x, c.y - p.y);
    assert((-vx) * (wy - vy) - (wx - vx) * (-vy) == wx * vy - vx * wy) by (nonlinear_arith);
}

/// The weights of `p` combine the corners' `x` into `p`'s own:
/// `wa * (a.x - p.x) + wb * (b.x - p.x) + wc * (c.x - p.x) == 0`, and likewise for `y`.
pub proof fn lemma_weights_combine(t: Triangle2D, p: Point2)
    ensures
        twice_area(t.b, t.c, p) * (t.a.x - p.x) + twice_area(t.c, t.a, p) * (t.b.x - p.x)
            + twice_area(t.a, t.b, p) * (t.c.x - p.x) == 0,
        twice_area(t.b, t.c, p) * (t.a.y - p.y) + twice_area(t.c, t.a, p) * (t.b.y - p.y)
            + twice_area(t.a, t.b, p) * (t.c.y - p.y) == 0,
{
    lemma_area_from(t.b, t.c, p);
    lemma_area_from(t.c, t.a, p);
    lemma_area_from(t.a, t.b, p);
    let (ux, uy, vx, vy, wx, wy) = (
        t.a.x - p.x,
        t.a.y - p.y,
        t.b.x - p.x,
        t.b.y - p.y,
        t.c.x - p.x,
        t.c.y - p.y,
    );
    assert((wx * vy - vx * wy) * ux + (ux * wy - wx * uy) * vx + (vx * uy - ux * vy) * wx == 0)
        by (nonlinear_arith);
    assert((wx * vy - vx * wy) * uy + (ux * wy - wx * uy) * vy + (vx * uy - ux * vy) * wy == 0)
        by (nonlinear_arith);
}

/// If non-negative weights with a positive sum combine offsets `da, db, dc`
/// into zero, the offsets cannot all be positive, nor all negative.
proof fn lemma_balanced_offsets(wa: int, wb: int, wc: int, da: int, db: int, dc: int)
    requires
        wa >= 0,
        wb >= 0,
        wc >= 0,
        wa + wb + wc > 0,
        wa * da + wb * db + wc * dc == 0,
    ensures
        !(da > 0 && db > 0 && dc > 0),
        !(da < 0 && db < 0 && dc < 0),
{
    if da > 0 && db > 0 && dc > 0 {
        assert(wa * da + wb * db + wc * dc > 0) by (nonlinear_arith)
            requires
                wa >= 0,
                wb >= 0,
                wc >= 0,
                wa + wb + wc > 0,
                da > 0,
                db > 0,
                dc > 0,
        ;
    }
    if da < 0 && db < 0 && dc < 0 {
        assert(wa * da + wb * db + wc * dc < 0) by (nonlinear_arith)
            requires
                wa >= 0,
                wb >= 0,
                wc >= 0,
                wa + wb + wc > 0,
                da < 0,
                db < 0,
                dc < 0,
        ;
    }
}

/// A covered point lies within the triangle's bounding box: on each axis it is
/// no smaller than the least corner coordinate and no larger than the greatest.
pub proof fn lemma_covered_point_in_bounds(t: Triangle2D, p: Point2)
    requires
        t.covers(p),
    ensures
        t.a.x <= p.x || t.b.x <= p.x || t.c.x <= p.x,
        t.a.x >= p.x || t.b.x >= p.x || t.c.x >= p.x,
        t.a.y <= p.y || t.b.y <= p.y || t.c.y <= p.y,
        t.a.y >= p.y || t.b.y >= p.y || t.c.y >= p.y,
{
    lemma_weights_combine(t, p);
    let (wa, wb, wc) = (twice_area(t.b, t.c, p), twice_area(t.c, t.a, p), twice_area(t.a, t.b, p));
    lemma_balanced_offsets(wa, wb, wc, t.a.x - p.x, t.b.x - p.x, t.c.x - p.x);
    lemma_balanced_offsets(wa, wb, wc, t.a.y - p.y, t.b.y - p.y, t.c.y - p.y);
}

/// A point strictly inside a triangle (all three sub-areas positive) is covered,
/// and its three barycentric weights each lie strictly between 0 and 1 and sum to 1.
pub proof fn lemma_interior_point_weights(t: Triangle2D, p: Point2)
    requires
        twice_area(t.b, t.c, p) > 0,
        twice_area(t.c, t.a, p) > 0,
        twice_area(t.a, t.b, p) > 0,
    ensures
        t.covers(p),
        ({
            let wa = twice_area(t.b, t.c, p);
            let wb = twice_area(t.c, t.a, p);
            let wc = twice_area(t.a, t.b, p);
            let total = wa + wb + wc;
            &&& total == twice_area(t.a, t.b, t.c)
            &&& 0 < wa < total
            &&& 0 < wb < total
            &&& 0 < wc < total
        }),
{
    lemma_sub_areas_sum(t.a, t.b, t.c, p);
}

/// A triangle whose corners are collinear covers no point at all.
pub proof fn lemma_collinear_covers_nothing(t: Triangle2D, p: Point2)
    requires
        twice_area(t.a, t.b, t.c) == 0,
    ensures
        !t.covers(p),
        t.weights(p).total == 0,
{
    lemma_sub_areas_sum(t.a, t.b, t.c, p);
}

} // verus!
