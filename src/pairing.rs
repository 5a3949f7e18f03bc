//! Classifying each pair of top and bottom samples as a measurable
//! cross-section or a single point.
use crate::geometry::{dist_sq, midpoint, Line, Point};
use vstd::prelude::*;

verus! {

/// What one pair of samples becomes: a point where the curves meet, or the
/// line between them where they are apart.
#[derive(Debug, Clone, Copy, PartialEq, Eq, Structural)]
pub enum Primitive {
    Point(Point),
    Line(Line),
}

impl Primitive {
    pub fn is_line(&self) -> (r: bool)
        ensures
            r == self is Line,
    {
        match *self {
            Primitive::Line(_) => true,
            Primitive::Point(_) => false,
        }
    }

    pub fn as_point(&self) -> (r: Point)
        requires
            self is Point,
        ensures
            r == self->Point_0,
    {
        match *self {
            Primitive::Point(p) => p,
            Primitive::Line(l) => l.a,
        }
    }

    pub fn as_line(&self) -> (r: Line)
        requires
            self is Line,
        ensures
            r == self->Line_0,
    {
        match *self {
            Primitive::Line(l) => l,
            Primitive::Point(p) => Line { a: p, b: p },
        }
    }
}

/// The classification of one pair: a line from `top` to `bottom` when they
/// are more than `thresh` apart, else their midpoint.
pub open spec fn classify(top: Point, bottom: Point, thresh: int) -> Primitive {
    if dist_sq(top, bottom) > thresh * thresh {
        Primitive::Line(Line { a: top, b: bottom })
    } else {
        Primitive::Point(midpoint(top, bottom))
    }
}

/// The classification of every pair of samples, index by index.
pub open spec fn pair_spec(top: Seq<Point>, bottom: Seq<Point>, thresh: int) -> Seq<Primitive> {
    Seq::new(top.len(), |i: int| classify(top[i], bottom[i], thresh))
}

/// Pairs the samples of the top and the bottom curve index by index. The
/// threshold is a distance in the units of the coordinates.
pub fn pair_points(top: &Vec<Point>, bottom: &Vec<Point>, dist_thresh: u32) -> (r: Vec<Primitive>)
    requires
        top@.len() == bottom@.len(),
    ensures
        r@ == pair_spec(top@, bottom@, dist_thresh as int),
        r@.len() == top@.len(),
        forall|i: int|
            0 <= i < r@.len() ==> (#[trigger] r@[i] is Line <==> dist_sq(top@[i], bottom@[i]) > dist_thresh
                * dist_thresh),
{
    proof {
        let t = dist_thresh as int;
        assert(0 <= t * t <= 0x1_0000_0000 * 0x1_0000_0000) by (nonlinear_arith)
            requires 0 <= t <= 0x1_0000_0000;
    }
    let limit = dist_thresh as i128 * dist_thresh as i128;
    let mut out: Vec<Primitive> = Vec::new();
    let mut i: usize = 0;
    while i < top.len()
        invariant
            top@.len() == bottom@.len(),
            0 <= i <= top@.len(),
            limit == dist_thresh * dist_thresh,
            out@ == pair_spec(top@, bottom@, dist_thresh as int).take(i as int),
        decreases top@.len() - i,
    {
        let top_pt = top[i];
        let bottom_pt = bottom[i];
        if top_pt.distance_sq(bottom_pt) > limit {
            out.push(Primitive::Line(Line { a: top_pt, b: bottom_pt }));
        } else {
            out.push(Primitive::Point(top_pt.average(bottom_pt)));
        }
        i = i + 1;
        assert(out@ =~= pair_spec(top@, bottom@, dist_thresh as int).take(i as int));
    }
    assert(out@ =~= pair_spec(top@, bottom@, dist_thresh as int));
    out
}

} // verus!
