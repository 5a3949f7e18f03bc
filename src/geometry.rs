//! Points, lines and triangles on integer coordinates, and the interpolations
//! that sample a path.
use vstd::arithmetic::div_mod::{
    lemma_div_is_ordered, lemma_fundamental_div_mod, lemma_fundamental_div_mod_converse,
};
use vstd::prelude::*;

verus! {

/// A point on fixed-point integer coordinates; `y` grows downwards.
#[derive(Debug, Clone, Copy, PartialEq, Eq, Structural)]
pub struct Point {
    pub x: i32,
    pub y: i32,
}

/// A segment between two points: for a cross-section of an area, `a` lies on
/// the top curve and `b` on the bottom curve.
#[derive(Debug, Clone, Copy, PartialEq, Eq, Structural)]
pub struct Line {
    pub a: Point,
    pub b: Point,
}

/// A triangle, wound counter-clockwise as seen on a screen whose `y` grows
/// downwards.
#[derive(Debug, Clone, Copy, PartialEq, Eq, Structural)]
pub struct Triangle {
    pub a: Point,
    pub b: Point,
    pub c: Point,
}

impl Point {
    pub fn new(x: i32, y: i32) -> (r: Point)
        ensures
            r == (Point { x, y }),
    {
        Point { x, y }
    }

    /// The point at `t = i / n` on the straight segment from `self` to `other`.
    pub fn lerp(&self, other: Point, i: i32, n: i32) -> (r: Point)
        requires
            0 <= i <= n,
            n > 0,
        ensures
            r == lerp_point(*self, other, i as int, n as int),
    {
        Point { x: lerp(self.x, other.x, i, n), y: lerp(self.y, other.y, i, n) }
    }

    /// The point at `t = i / n` on the cubic Bezier curve from `self` to `other`
    /// with control points `c1` and `c2`.
    pub fn berp(&self, other: Point, c1: Point, c2: Point, i: i32, n: i32) -> (r: Point)
        requires
            0 <= i <= n,
            n > 0,
        ensures
            r == berp_point(*self, other, c1, c2, i as int, n as int),
    {
        Point {
            x: berp(self.x, c1.x, c2.x, other.x, i, n),
            y: berp(self.y, c1.y, c2.y, other.y, i, n),
        }
    }

    /// The squared Euclidean distance to `other`.
    pub fn distance_sq(&self, other: Point) -> (r: i128)
        ensures
            r == dist_sq(*self, other),
    {
        let dx = self.x as i128 - other.x as i128;
        let dy = self.y as i128 - other.y as i128;
        proof {
            lemma_mul_bound(dx as int, dx as int, 0x1_0000_0000, 0x1_0000_0000);
            lemma_mul_bound(dy as int, dy as int, 0x1_0000_0000, 0x1_0000_0000);
        }
        dx * dx + dy * dy
    }

    /// The midpoint of `self` and `other`.
    pub fn average(&self, other: Point) -> (r: Point)
        ensures
            r == midpoint(*self, other),
    {
        let x = floor_div(self.x as i128 + other.x as i128, 2);
        let y = floor_div(self.y as i128 + other.y as i128, 2);
        Point { x: x as i32, y: y as i32 }
    }
}

/// The least of four values.
pub open spec fn min4(a: int, b: int, c: int, d: int) -> int {
    vstd::math::min(vstd::math::min(a, b), vstd::math::min(c, d))
}

/// The greatest of four values.
pub open spec fn max4(a: int, b: int, c: int, d: int) -> int {
    vstd::math::max(vstd::math::max(a, b), vstd::math::max(c, d))
}

/// Linear interpolation from `a` to `b` at parameter `t = i / n`, rounded down.
pub open spec fn lerp_spec(a: int, b: int, i: int, n: int) -> int {
    ((n - i) * a + i * b) / n
}

/// Cubic Bezier interpolation through `a`, controls `b` and `c`, to `d`, at
/// parameter `t = i / n`, rounded down.
pub open spec fn berp_spec(a: int, b: int, c: int, d: int, i: int, n: int) -> int {
    let s = n - i;
    (s * s * s * a + 3 * s * s * i * b + 3 * s * i * i * c + i * i * i * d) / (n * n * n)
}

/// `lerp_spec` on both coordinates.
pub open spec fn lerp_point(p: Point, q: Point, i: int, n: int) -> Point {
    Point { x: lerp_spec(p.x as int, q.x as int, i, n) as i32, y: lerp_spec(p.y as int, q.y as int, i, n) as i32 }
}

/// `berp_spec` on both coordinates.
pub open spec fn berp_point(p: Point, q: Point, c1: Point, c2: Point, i: int, n: int) -> Point {
    Point {
        x: berp_spec(p.x as int, c1.x as int, c2.x as int, q.x as int, i, n) as i32,
        y: berp_spec(p.y as int, c1.y as int, c2.y as int, q.y as int, i, n) as i32,
    }
}

/// The squared Euclidean distance between two points.
pub open spec fn dist_sq(p: Point, q: Point) -> int {
    (p.x - q.x) * (p.x - q.x) + (p.y - q.y) * (p.y - q.y)
}

/// The midpoint of two points, each coordinate rounded down.
pub open spec fn midpoint(p: Point, q: Point) -> Point {
    Point { x: ((p.x + q.x) / 2) as i32, y: ((p.y + q.y) / 2) as i32 }
}

/// Twice the signed area of a triangle, positive when it is wound
/// counter-clockwise on a screen whose `y` grows downwards.
pub open spec fn signed_area2(t: Triangle) -> int {
    (t.b.y - t.a.y) * (t.c.x - t.a.x) - (t.b.x - t.a.x) * (t.c.y - t.a.y)
}

/// `a / b` rounded towards negative infinity.
fn floor_div(a: i128, b: i128) -> (r: i128)
    requires
        0 < b <= 0x4000_0000_0000_0000_0000_0000_0000_0000,
        -0x4000_0000_0000_0000_0000_0000_0000_0000 <= a <= 0x4000_0000_0000_0000_0000_0000_0000_0000,
    ensures
        r == a / b,
{
    if a >= 0 {
        a / b
    } else {
        let c = (b - 1 - a) / b;
        proof {
            let x = (b - 1 - a) as int;
            lemma_fundamental_div_mod(x, b as int);
            let rm = x % (b as int);
            assert(a == (-c) * b + (b - 1 - rm)) by (nonlinear_arith)
                requires x == b * c + rm, x == b - 1 - a;
            lemma_fundamental_div_mod_converse(a as int, b as int, -c, b - 1 - rm);
        }
        -c
    }
}

/// A weighted sum whose weights are non-negative and add up to `d` lies
/// between `d` times the least and `d` times the greatest value.
proof fn lemma_weighted_bounds(w0: int, w1: int, w2: int, w3: int, a: int, b: int, c: int, e: int)
    requires
        w0 >= 0,
        w1 >= 0,
        w2 >= 0,
        w3 >= 0,
        w0 + w1 + w2 + w3 > 0,
    ensures
        (w0 + w1 + w2 + w3) * min4(a, b, c, e) <= (w0 * a + w1 * b + w2 * c + w3 * e) / (w0 + w1 + w2 + w3) * (w0 + w1 + w2 + w3),
        min4(a, b, c, e) <= (w0 * a + w1 * b + w2 * c + w3 * e) / (w0 + w1 + w2 + w3) <= max4(a, b, c, e),
{
    let lo = min4(a, b, c, e);
    let hi = max4(a, b, c, e);
    let d = w0 + w1 + w2 + w3;
    let s = w0 * a + w1 * b + w2 * c + w3 * e;
    assert(w0 * lo <= w0 * a && w0 * a <= w0 * hi) by (nonlinear_arith)
        requires w0 >= 0, lo <= a <= hi;
    assert(w1 * lo <= w1 * b && w1 * b <= w1 * hi) by (nonlinear_arith)
        requires w1 >= 0, lo <= b <= hi;
    assert(w2 * lo <= w2 * c && w2 * c <= w2 * hi) by (nonlinear_arith)
        requires w2 >= 0, lo <= c <= hi;
    assert(w3 * lo <= w3 * e && w3 * e <= w3 * hi) by (nonlinear_arith)
        requires w3 >= 0, lo <= e <= hi;
    assert(d * lo <= s <= d * hi) by (nonlinear_arith)
        requires
            d == w0 + w1 + w2 + w3,
            s == w0 * a + w1 * b + w2 * c + w3 * e,
            w0 * lo <= w0 * a <= w0 * hi,
            w1 * lo <= w1 * b <= w1 * hi,
            w2 * lo <= w2 * c <= w2 * hi,
            w3 * lo <= w3 * e <= w3 * hi;
    lemma_div_is_ordered(d * lo, s, d);
    lemma_div_is_ordered(s, d * hi, d);
    assert((d * lo) / d == lo) by (nonlinear_arith)
        requires d > 0;
    assert((d * hi) / d == hi) by (nonlinear_arith)
        requires d > 0;
    assert(d * lo <= s / d * d) by (nonlinear_arith)
        requires d > 0, lo <= s / d;
}

/// A bound on the magnitude of a product.
proof fn lemma_mul_bound(x: int, y: int, bx: int, by: int)
    requires
        -bx <= x <= bx,
        -by <= y <= by,
    ensures
        -(bx * by) <= x * y <= bx * by,
{
    assert(-(bx * by) <= x * y <= bx * by) by (nonlinear_arith)
        requires -bx <= x <= bx, -by <= y <= by;
}

/// Linear interpolation of one coordinate.
pub fn lerp(a: i32, b: i32, i: i32, n: i32) -> (r: i32)
    requires
        0 <= i <= n,
        n > 0,
    ensures
        r == lerp_spec(a as int, b as int, i as int, n as int),
{
    proof {
        lemma_weighted_bounds((n - i) as int, i as int, 0, 0, a as int, b as int, a as int, a as int);
        assert(((n - i) * a + i * b + 0 * a + 0 * a) == ((n - i) * a + i * b)) by (nonlinear_arith);
        lemma_mul_bound((n - i) as int, a as int, 0x1_0000_0000, 0x1_0000_0000);
        lemma_mul_bound(i as int, b as int, 0x1_0000_0000, 0x1_0000_0000);
    }
    let s = (n as i128 - i as i128) * a as i128 + i as i128 * b as i128;
    floor_div(s, n as i128) as i32
}

/// The Bernstein weights of a cubic at `t = i / n`: non-negative, bounded,
/// and adding up to `n` cubed.
proof fn lemma_cubic_weights(s: int, i: int, n: int)
    requires
        0 <= s,
        0 <= i,
        s + i == n,
        n <= 0x8000_0000,
    ensures
        0 <= s * s <= 0x4000_0000_0000_0000,
        0 <= s * s * s <= 0x2000_0000_0000_0000_0000_0000,
        0 <= 3 * s * s <= 0xc000_0000_0000_0000,
        0 <= 3 * s * s * i <= 0x6000_0000_0000_0000_0000_0000,
        0 <= 3 * s <= 0x1_8000_0000,
        0 <= 3 * s * i <= 0xc000_0000_0000_0000,
        0 <= 3 * s * i * i <= 0x6000_0000_0000_0000_0000_0000,
        0 <= i * i <= 0x4000_0000_0000_0000,
        0 <= i * i * i <= 0x2000_0000_0000_0000_0000_0000,
        0 <= n * n <= 0x4000_0000_0000_0000,
        0 < n ==> 0 < n * n * n <= 0x2000_0000_0000_0000_0000_0000,
        s * s * s + 3 * s * s * i + 3 * s * i * i + i * i * i == n * n * n,
{
    assert(0 <= s * s <= 0x4000_0000_0000_0000) by (nonlinear_arith)
        requires 0 <= s <= 0x8000_0000;
    assert(0 <= s * s * s <= 0x2000_0000_0000_0000_0000_0000) by (nonlinear_arith)
        requires 0 <= s <= 0x8000_0000, 0 <= s * s <= 0x4000_0000_0000_0000;
    assert(0 <= i * i <= 0x4000_0000_0000_0000) by (nonlinear_arith)
        requires 0 <= i <= 0x8000_0000;
    assert(0 <= i * i * i <= 0x2000_0000_0000_0000_0000_0000) by (nonlinear_arith)
        requires 0 <= i <= 0x8000_0000, 0 <= i * i <= 0x4000_0000_0000_0000;
    assert(0 <= n * n <= 0x4000_0000_0000_0000) by (nonlinear_arith)
        requires 0 <= n <= 0x8000_0000;
    assert(0 < n ==> 0 < n * n * n <= 0x2000_0000_0000_0000_0000_0000) by (nonlinear_arith)
        requires 0 <= n <= 0x8000_0000, 0 <= n * n <= 0x4000_0000_0000_0000;
    assert(0 <= 3 * s * s <= 0xc000_0000_0000_0000) by (nonlinear_arith)
        requires 0 <= s * s <= 0x4000_0000_0000_0000;
    assert(0 <= 3 * s <= 0x1_8000_0000);
    assert(0 <= 3 * s * s * i <= 0x6000_0000_0000_0000_0000_0000) by (nonlinear_arith)
        requires 0 <= s <= 0x8000_0000, 0 <= i <= 0x8000_0000, 0 <= s * s <= 0x4000_0000_0000_0000;
    assert(0 <= 3 * s * i <= 0xc000_0000_0000_0000) by (nonlinear_arith)
        requires 0 <= s <= 0x8000_0000, 0 <= i <= 0x8000_0000;
    assert(0 <= 3 * s * i * i <= 0x6000_0000_0000_0000_0000_0000) by (nonlinear_arith)
        requires 0 <= i <= 0x8000_0000, 0 <= 3 * s * i <= 0xc000_0000_0000_0000;
    assert(s * s * s + 3 * s * s * i + 3 * s * i * i + i * i * i == n * n * n) by (nonlinear_arith)
        requires s + i == n;
}

/// One term of a weighted sum.
fn weighted(w: i128, p: i32) -> (r: i128)
    requires
        0 <= w <= 0x6000_0000_0000_0000_0000_0000,
    ensures
        r == w * p,
        -0x8000_0000 * w <= r <= 0x8000_0000 * w,
{
    proof {
        assert(-0x8000_0000 * w <= w * p <= 0x8000_0000 * w) by (nonlinear_arith)
            requires 0 <= w, -0x8000_0000 <= p <= 0x8000_0000;
    }
    w * p as i128
}

/// Cubic Bezier interpolation of one coordinate.
pub fn berp(a: i32, b: i32, c: i32, d: i32, i: i32, n: i32) -> (r: i32)
    requires
        0 <= i <= n,
        n > 0,
    ensures
        r == berp_spec(a as int, b as int, c as int, d as int, i as int, n as int),
{
    let nn = n as i128;
    let ii = i as i128;
    let s = nn - ii;
    proof {
        lemma_cubic_weights(s as int, ii as int, nn as int);
    }
    let w0 = s * s * s;
    let w1 = 3 * s * s * ii;
    let w2 = 3 * s * ii * ii;
    let w3 = ii * ii * ii;
    let den = nn * nn * nn;
    proof {
        lemma_weighted_bounds(w0 as int, w1 as int, w2 as int, w3 as int, a as int, b as int, c as int, d as int);
    }
    let t0 = weighted(w0, a);
    let t1 = weighted(w1, b);
    let t2 = weighted(w2, c);
    let t3 = weighted(w3, d);
    let sum = t0 + t1 + t2 + t3;
    floor_div(sum, den) as i32
}

} // verus!
