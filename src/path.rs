//! Sampling points along a path of absolute drawing commands.
use crate::geometry::{berp_point, lerp_point, Point};
use vstd::prelude::*;

verus! {

/// One command of a path, in absolute coordinates.
#[derive(Debug, Clone, Copy, PartialEq, Eq, Structural)]
pub enum PathSegment {
    MoveTo { x: i32, y: i32 },
    LineTo { x: i32, y: i32 },
    HorizontalLineTo { x: i32 },
    VerticalLineTo { y: i32 },
    CurveTo { x1: i32, y1: i32, x2: i32, y2: i32, x: i32, y: i32 },
    /// Any other command (arcs, quadratic curves, relative coordinates).
    Unsupported,
}

/// Why a mesh could not be built.
#[derive(Debug, Clone, Copy, PartialEq, Eq, Structural)]
pub enum MeshError {
    /// The path does not begin with a move.
    MissingMoveTo,
    /// A move after the first command would start a second subpath.
    Subpath,
    /// A command other than move, line, horizontal or vertical line, or cubic curve.
    UnsupportedCommand,
    /// The two curves yield different numbers of points.
    LengthMismatch,
}

impl MeshError {
    /// A description of the error.
    pub fn message(&self) -> (r: &'static str)
        ensures
            self == MeshError::MissingMoveTo ==> r@ == "Path must begin with MoveTo"@,
            self == MeshError::Subpath ==> r@ == "Subpaths not supported"@,
            self == MeshError::UnsupportedCommand ==> r@ == "Unsupported path command"@,
            self == MeshError::LengthMismatch ==> r@ == "Top and bottom paths yield different numbers of points"@,
    {
        let r = match self {
            MeshError::MissingMoveTo => "Path must begin with MoveTo",
            MeshError::Subpath => "Subpaths not supported",
            MeshError::UnsupportedCommand => "Unsupported path command",
            MeshError::LengthMismatch => "Top and bottom paths yield different numbers of points",
        };
        proof {
            reveal_strlit("Path must begin with MoveTo");
            reveal_strlit("Subpaths not supported");
            reveal_strlit("Unsupported path command");
            reveal_strlit("Top and bottom paths yield different numbers of points");
        }
        r
    }
}

/// Whether a command draws from the current point.
pub open spec fn is_drawing(seg: PathSegment) -> bool {
    !(seg is MoveTo || seg is Unsupported)
}

/// The error that a command which does not draw causes after the start.
pub open spec fn command_error(seg: PathSegment) -> MeshError {
    if seg is MoveTo {
        MeshError::Subpath
    } else {
        MeshError::UnsupportedCommand
    }
}

/// Where a drawing command leaves the current point.
pub open spec fn segment_end(cur: Point, seg: PathSegment) -> Point {
    match seg {
        PathSegment::LineTo { x, y } => Point { x, y },
        PathSegment::HorizontalLineTo { x } => Point { x, y: cur.y },
        PathSegment::VerticalLineTo { y } => Point { x: cur.x, y },
        PathSegment::CurveTo { x, y, .. } => Point { x, y },
        _ => cur,
    }
}

/// `m` samples of a straight segment at `t = k / m` for `k < m`.
pub open spec fn line_samples(p: Point, q: Point, m: int) -> Seq<Point> {
    Seq::new(m as nat, |k: int| lerp_point(p, q, k, m))
}

/// The samples of a drawing command before its destination: `n` along a
/// curve, `n / 2` along a straight edge.
pub open spec fn segment_samples(cur: Point, seg: PathSegment, n: int) -> Seq<Point> {
    match seg {
        PathSegment::CurveTo { x1, y1, x2, y2, x, y } => Seq::new(
            n as nat,
            |k: int| berp_point(cur, Point { x, y }, Point { x: x1, y: y1 }, Point { x: x2, y: y2 }, k, n),
        ),
        PathSegment::MoveTo { .. } => Seq::empty(),
        PathSegment::Unsupported => Seq::empty(),
        _ => line_samples(cur, segment_end(cur, seg), n / 2),
    }
}

/// The points sampled from `cur` along `segs`, ending at the last destination.
pub open spec fn walk(cur: Point, segs: Seq<PathSegment>, n: int) -> Result<Seq<Point>, MeshError>
    decreases segs.len(),
{
    if segs.len() == 0 {
        Ok(seq![cur])
    } else if !is_drawing(segs[0]) {
        Err(command_error(segs[0]))
    } else {
        match walk(segment_end(cur, segs[0]), segs.drop_first(), n) {
            Ok(rest) => Ok(segment_samples(cur, segs[0], n) + rest),
            Err(e) => Err(e),
        }
    }
}

/// The points sampled along a whole path.
pub open spec fn path_points(segs: Seq<PathSegment>, n: int) -> Result<Seq<Point>, MeshError> {
    if segs.len() == 0 {
        Ok(Seq::empty())
    } else {
        match segs[0] {
            PathSegment::MoveTo { x, y } => walk(Point { x, y }, segs.drop_first(), n),
            _ => Err(MeshError::MissingMoveTo),
        }
    }
}

/// `s` put in front of the points of `r`, or the error of `r`.
pub open spec fn prepend(s: Seq<Point>, r: Result<Seq<Point>, MeshError>) -> Result<Seq<Point>, MeshError> {
    match r {
        Ok(w) => Ok(s + w),
        Err(e) => Err(e),
    }
}

/// The samples of one command from `cur`, followed by its destination.
pub fn interpolate_segment(cur: Point, segment: PathSegment, n_samples: i32) -> (r: Result<Vec<Point>, MeshError>)
    requires
        n_samples > 0,
    ensures
        is_drawing(segment) ==> r is Ok && r->Ok_0@ == segment_samples(cur, segment, n_samples as int).push(segment_end(cur, segment)),
        !is_drawing(segment) ==> r == Err::<Vec<Point>, MeshError>(command_error(segment)),
{
    let mut out: Vec<Point> = Vec::new();
    match segment {
        PathSegment::CurveTo { x1, y1, x2, y2, x, y } => {
            let dst = Point::new(x, y);
            let c1 = Point::new(x1, y1);
            let c2 = Point::new(x2, y2);
            let mut i: i32 = 0;
            while i < n_samples
                invariant
                    0 <= i <= n_samples,
                    segment == (PathSegment::CurveTo { x1, y1, x2, y2, x, y }),
                    dst == (Point { x, y }),
                    c1 == (Point { x: x1, y: y1 }),
                    c2 == (Point { x: x2, y: y2 }),
                    out@ == segment_samples(cur, segment, n_samples as int).take(i as int),
                decreases n_samples - i,
            {
                out.push(cur.berp(dst, c1, c2, i, n_samples));
                i = i + 1;
                assert(out@ =~= segment_samples(cur, segment, n_samples as int).take(i as int));
            }
            assert(out@ =~= segment_samples(cur, segment, n_samples as int));
            out.push(dst);
            Ok(out)
        },
        PathSegment::MoveTo { .. } => Err(MeshError::Subpath),
        PathSegment::Unsupported => Err(MeshError::UnsupportedCommand),
        _ => {
            let dst = match segment {
                PathSegment::HorizontalLineTo { x } => Point::new(x, cur.y),
                PathSegment::VerticalLineTo { y } => Point::new(cur.x, y),
                PathSegment::LineTo { x, y } => Point::new(x, y),
                _ => cur,
            };
            // fewer samples are needed where nothing curves
            let m = n_samples / 2;
            let mut i: i32 = 0;
            while i < m
                invariant
                    0 <= i <= m,
                    m == n_samples / 2,
                    dst == segment_end(cur, segment),
                    is_drawing(segment),
                    !(segment is CurveTo),
                    out@ == segment_samples(cur, segment, n_samples as int).take(i as int),
                decreases m - i,
            {
                out.push(cur.lerp(dst, i, m));
                i = i + 1;
                assert(out@ =~= segment_samples(cur, segment, n_samples as int).take(i as int));
            }
            assert(out@ =~= segment_samples(cur, segment, n_samples as int));
            out.push(dst);
            Ok(out)
        },
    }
}

/// The points sampled along a path: the samples of each command in turn,
/// then the destination of the last command.
pub fn points_along_path(path: &Vec<PathSegment>, samples_per_segment: i32) -> (r: Result<Vec<Point>, MeshError>)
    requires
        samples_per_segment > 0,
    ensures
        match path_points(path@, samples_per_segment as int) {
            Ok(pts) => r is Ok && r->Ok_0@ == pts,
            Err(e) => r == Err::<Vec<Point>, MeshError>(e),
        },
{
    if path.len() == 0 {
        return Ok(Vec::new());
    }
    let init_pt = match path[0] {
        PathSegment::MoveTo { x, y } => Point::new(x, y),
        _ => return Err(MeshError::MissingMoveTo),
    };
    let n = samples_per_segment;
    let mut out_pts: Vec<Point> = Vec::new();
    let mut current_pt = init_pt;
    let mut j: usize = 1;
    assert(path@.drop_first() =~= path@.subrange(1, path@.len() as int));
    while j < path.len()
        invariant
            1 <= j <= path@.len(),
            n == samples_per_segment,
            n > 0,
            path_points(path@, n as int) == prepend(out_pts@, walk(current_pt, path@.subrange(j as int, path@.len() as int), n as int)),
        decreases path@.len() - j,
    {
        let seg = path[j];
        let rest = Ghost(path@.subrange(j as int, path@.len() as int));
        assert(rest@[0] == seg);
        assert(rest@.drop_first() =~= path@.subrange(j + 1, path@.len() as int));
        let mut pts = match interpolate_segment(current_pt, seg, n) {
            Ok(v) => v,
            Err(e) => return Err(e),
        };
        let ghost old_pt = current_pt;
        let last = pts.pop();
        match last {
            Some(p) => {
                current_pt = p;
            },
            None => {},
        }
        proof {
            let tail = walk(current_pt, rest@.drop_first(), n as int);
            assert(current_pt == segment_end(old_pt, seg));
            assert(pts@ == segment_samples(old_pt, seg, n as int));
            assert(walk(old_pt, rest@, n as int) == prepend(pts@, tail));
            match tail {
                Ok(w) => {
                    assert(out_pts@ + (pts@ + w) =~= (out_pts@ + pts@) + w);
                },
                Err(e) => {},
            }
        }
        out_pts.append(&mut pts);
        j = j + 1;
    }
    assert(path@.subrange(j as int, path@.len() as int).len() == 0);
    assert(out_pts@.push(current_pt) =~= out_pts@ + seq![current_pt]);
    out_pts.push(current_pt);
    Ok(out_pts)
}

} // verus!
