//! Triangulating areas and assembling the mesh.
use crate::geometry::{signed_area2, Line, Triangle};
use crate::pairing::{pair_points, pair_spec};
use crate::path::{path_points, points_along_path, MeshError, PathSegment};
use crate::runs::{
    area_at, areas_of, areas_view, chains_of, chains_view, find_areas, find_chains, lemma_runs, runs, Area,
    AreaView,
};
use vstd::prelude::*;

verus! {

/// The first triangle of the quad between `l1` and the line `l2` to its right.
pub open spec fn quad_first(l1: Line, l2: Line) -> Triangle {
    Triangle { a: l1.a, b: l1.b, c: l2.b }
}

/// The second triangle of the quad between `l1` and the line `l2` to its right.
pub open spec fn quad_second(l1: Line, l2: Line) -> Triangle {
    Triangle { a: l2.b, b: l2.a, c: l1.a }
}

/// Two triangles for each pair of neighbouring lines, left to right.
pub open spec fn quad_triangles(m: Seq<Line>) -> Seq<Triangle> {
    Seq::new(
        if m.len() == 0 { 0 } else { 2 * (m.len() - 1) } as nat,
        |j: int|
            if j % 2 == 0 {
                quad_first(m[j / 2], m[j / 2 + 1])
            } else {
                quad_second(m[j / 2], m[j / 2 + 1])
            },
    )
}

/// The cap from the point before an area to its first line.
pub open spec fn start_cap(a: AreaView) -> Seq<Triangle> {
    match a.start {
        Some(p) => seq![Triangle { a: p, b: a.middle[0].b, c: a.middle[0].a }],
        None => Seq::empty(),
    }
}

/// The cap from the point after an area to its last line.
pub open spec fn end_cap(a: AreaView) -> Seq<Triangle> {
    match a.end {
        Some(p) => seq![Triangle { a: p, b: a.middle.last().a, c: a.middle.last().b }],
        None => Seq::empty(),
    }
}

/// The triangles of an area: its start cap, its quads, its end cap.
pub open spec fn area_triangles(a: AreaView) -> Seq<Triangle> {
    start_cap(a) + quad_triangles(a.middle) + end_cap(a)
}

/// The mesh of two sampled curves: the triangles of every area and the
/// segments of every chain, in the order the runs occur.
pub open spec fn mesh_of(top: Seq<PathSegment>, bottom: Seq<PathSegment>, n: int, thresh: int) -> Result<
    (Seq<Triangle>, Seq<Line>),
    MeshError,
> {
    match path_points(top, n) {
        Err(e) => Err(e),
        Ok(t) => match path_points(bottom, n) {
            Err(e) => Err(e),
            Ok(b) => if t.len() != b.len() {
                Err(MeshError::LengthMismatch)
            } else {
                let p = pair_spec(t, b, thresh);
                Ok((areas_of(p).map_values(|a: AreaView| area_triangles(a)).flatten(), chains_of(p).flatten()))
            },
        },
    }
}

/// The two triangles of the quad between `l1` and the line `l2` to its right.
pub fn make_quad(l1: Line, l2: Line) -> (r: [Triangle; 2])
    ensures
        r[0] == quad_first(l1, l2),
        r[1] == quad_second(l1, l2),
{
    [Triangle { a: l1.a, b: l1.b, c: l2.b }, Triangle { a: l2.b, b: l2.a, c: l1.a }]
}

/// The counter-clockwise triangles that cover an area.
pub fn triangulate_area(area: &Area) -> (r: Vec<Triangle>)
    requires
        area.middle@.len() > 0,
    ensures
        r@ == area_triangles(area@),
{
    let mut out: Vec<Triangle> = Vec::new();
    let m = &area.middle;
    match area.start {
        Some(p) => {
            out.push(Triangle { a: p, b: m[0].b, c: m[0].a });
        },
        None => {},
    }
    let ghost caps = out@;
    assert(caps == start_cap(area@));
    let mut i: usize = 0;
    while i < m.len() - 1
        invariant
            m@ == area.middle@,
            m@.len() > 0,
            0 <= i < m@.len(),
            out@ == caps + quad_triangles(m@).take(2 * i),
        decreases m@.len() - i,
    {
        let quad = make_quad(m[i], m[i + 1]);
        out.push(quad[0]);
        out.push(quad[1]);
        i = i + 1;
        assert(out@ =~= caps + quad_triangles(m@).take(2 * i));
    }
    assert(quad_triangles(m@).take(2 * i) =~= quad_triangles(m@));
    match area.end {
        Some(p) => {
            let last = m[m.len() - 1];
            out.push(Triangle { a: p, b: last.a, c: last.b });
        },
        None => {},
    }
    assert(out@ =~= area_triangles(area@));
    out
}

/// An area whose lines are vertical, run from top to bottom, stand left to
/// right, and whose caps lie outside them.
pub open spec fn is_ladder(a: AreaView) -> bool {
    let m = a.middle;
    &&& m.len() > 0
    &&& forall|k: int| 0 <= k < m.len() ==> (#[trigger] m[k]).a.x == m[k].b.x && m[k].a.y < m[k].b.y
    &&& forall|k: int| 0 <= k < m.len() - 1 ==> (#[trigger] m[k]).a.x < m[k + 1].a.x
    &&& a.start is Some ==> a.start->Some_0.x < m[0].a.x
    &&& a.end is Some ==> a.end->Some_0.x > m.last().a.x
}

/// Every triangle of a ladder area is wound counter-clockwise with a
/// positive area.
pub proof fn lemma_ladder_triangles_ccw(a: AreaView)
    requires
        is_ladder(a),
    ensures
        forall|j: int| 0 <= j < area_triangles(a).len() ==> signed_area2(#[trigger] area_triangles(a)[j]) > 0,
{
    let m = a.middle;
    let t = area_triangles(a);
    let sc = start_cap(a);
    let q = quad_triangles(m);
    assert forall|j: int| 0 <= j < t.len() implies signed_area2(#[trigger] t[j]) > 0 by {
        if j < sc.len() {
            let p = a.start->Some_0;
            let l = m[0];
            assert(t[j] == (Triangle { a: p, b: l.b, c: l.a }));
            let (dx, h) = ((l.a.x - p.x) as int, (l.b.y - l.a.y) as int);
            assert(signed_area2(t[j]) == dx * h) by (nonlinear_arith)
                requires
                    signed_area2(t[j]) == (l.b.y - p.y) * (l.a.x - p.x) - (l.b.x - p.x) * (l.a.y - p.y),
                    l.a.x == l.b.x, dx == l.a.x - p.x, h == l.b.y - l.a.y;
            assert(dx * h > 0) by (nonlinear_arith)
                requires dx > 0, h > 0;
        } else if j < sc.len() + q.len() {
            let i = j - sc.len();
            assert(t[j] == q[i]);
            let (l1, l2) = (m[i / 2], m[i / 2 + 1]);
            let dx = (l2.a.x - l1.a.x) as int;
            if i % 2 == 0 {
                let h = (l1.b.y - l1.a.y) as int;
                assert(signed_area2(q[i]) == h * dx) by (nonlinear_arith)
                    requires
                        signed_area2(q[i]) == (l1.b.y - l1.a.y) * (l2.b.x - l1.a.x) - (l1.b.x - l1.a.x) * (l2.b.y - l1.a.y),
                        l1.a.x == l1.b.x, l2.a.x == l2.b.x, dx == l2.a.x - l1.a.x, h == l1.b.y - l1.a.y;
                assert(h * dx > 0) by (nonlinear_arith)
                    requires dx > 0, h > 0;
            } else {
                let h = (l2.b.y - l2.a.y) as int;
                assert(signed_area2(q[i]) == h * dx) by (nonlinear_arith)
                    requires
                        signed_area2(q[i]) == (l2.a.y - l2.b.y) * (l1.a.x - l2.b.x) - (l2.a.x - l2.b.x) * (l1.a.y - l2.b.y),
                        l1.a.x == l1.b.x, l2.a.x == l2.b.x, dx == l2.a.x - l1.a.x, h == l2.b.y - l2.a.y;
                assert(h * dx > 0) by (nonlinear_arith)
                    requires dx > 0, h > 0;
            }
        } else {
            let p = a.end->Some_0;
            let l = m.last();
            assert(t[j] == (Triangle { a: p, b: l.a, c: l.b }));
            let (dx, h) = ((p.x - l.a.x) as int, (l.b.y - l.a.y) as int);
            assert(signed_area2(t[j]) == dx * h) by (nonlinear_arith)
                requires
                    signed_area2(t[j]) == (l.a.y - p.y) * (l.b.x - p.x) - (l.a.x - p.x) * (l.b.y - p.y),
                    l.a.x == l.b.x, dx == p.x - l.a.x, h == l.b.y - l.a.y;
            assert(dx * h > 0) by (nonlinear_arith)
                requires dx > 0, h > 0;
        }
    }
}

/// An area of `k` lines gives two triangles for each of its `k - 1` quads
/// and one for each cap it has.
pub proof fn lemma_area_triangle_count(a: AreaView)
    requires
        a.middle.len() > 0,
    ensures
        area_triangles(a).len() == 2 * (a.middle.len() - 1) + (if a.start is Some { 1int } else { 0 }) + (
        if a.end is Some { 1int } else { 0 }),
        a.middle.len() == 2 && a.start is None && a.end is None ==> area_triangles(a) == seq![
            quad_first(a.middle[0], a.middle[1]),
            quad_second(a.middle[0], a.middle[1]),
        ],
{
    if a.middle.len() == 2 && a.start is None && a.end is None {
        assert(area_triangles(a) =~= seq![quad_first(a.middle[0], a.middle[1]), quad_second(a.middle[0], a.middle[1])]);
    }
}

/// The mesh depends on the paths, the sample density and the threshold
/// alone: building it again from the same values gives the same mesh.
pub proof fn lemma_mesh_deterministic(
    top1: Seq<PathSegment>,
    bot1: Seq<PathSegment>,
    top2: Seq<PathSegment>,
    bot2: Seq<PathSegment>,
    n: int,
    thresh: int,
)
    requires
        top1 == top2,
        bot1 == bot2,
    ensures
        mesh_of(top1, bot1, n, thresh) == mesh_of(top2, bot2, n, thresh),
{
}

/// Appends the segments of `src` to `out`.
fn extend_lines(out: &mut Vec<Line>, src: &Vec<Line>)
    ensures
        final(out)@ == old(out)@ + src@,
{
    let ghost start = out@;
    let mut j: usize = 0;
    while j < src.len()
        invariant
            0 <= j <= src@.len(),
            out@ == start + src@.take(j as int),
        decreases src@.len() - j,
    {
        out.push(src[j]);
        j = j + 1;
        assert(out@ =~= start + src@.take(j as int));
    }
    assert(src@.take(j as int) =~= src@);
}

/// Builds the mesh between a top and a bottom path: both are sampled with
/// `samples_per_segment`, each pair of samples is classified against
/// `dist_thresh`, every area is triangulated and every chain kept as segments.
pub fn gen_mesh(top_line: &Vec<PathSegment>, bot_line: &Vec<PathSegment>, samples_per_segment: i32, dist_thresh: u32) -> (r:
    Result<(Vec<Triangle>, Vec<Line>), MeshError>)
    requires
        samples_per_segment > 0,
    ensures
        match mesh_of(top_line@, bot_line@, samples_per_segment as int, dist_thresh as int) {
            Ok((t, l)) => r is Ok && r->Ok_0.0@ == t && r->Ok_0.1@ == l,
            Err(e) => r == Err::<(Vec<Triangle>, Vec<Line>), MeshError>(e),
        },
{
    let top_points = points_along_path(top_line, samples_per_segment)?;
    let bot_points = points_along_path(bot_line, samples_per_segment)?;
    if top_points.len() != bot_points.len() {
        return Err(MeshError::LengthMismatch);
    }
    let prims = pair_points(&top_points, &bot_points, dist_thresh);
    let ghost p = prims@;
    let areas = find_areas(&prims);
    let chains = find_chains(&prims);
    proof {
        lemma_runs(p, 0, true, 1);
    }
    let ghost tris = areas_of(p).map_values(|a: AreaView| area_triangles(a));
    let mut triangles: Vec<Triangle> = Vec::new();
    let mut k: usize = 0;
    while k < areas.len()
        invariant
            0 <= k <= areas@.len(),
            areas_view(areas@) == areas_of(p),
            tris == areas_of(p).map_values(|a: AreaView| area_triangles(a)),
            forall|q: int|
                0 <= q < runs(p, 0, true, 1).len() ==> #[trigger] runs(p, 0, true, 1)[q].0 + 1 <= runs(p, 0, true, 1)[q].1,
            triangles@ == tris.take(k as int).flatten(),
        decreases areas@.len() - k,
    {
        let ghost rk = runs(p, 0, true, 1)[k as int];
        assert(areas_view(areas@)[k as int] == areas@[k as int]@);
        assert(areas_of(p)[k as int] == area_at(p, rk.0, rk.1));
        let mut piece = triangulate_area(&areas[k]);
        proof {
            assert(tris.take(k + 1) =~= tris.take(k as int).push(tris[k as int]));
            tris.take(k as int).lemma_flatten_push(tris[k as int]);
        }
        triangles.append(&mut piece);
        k = k + 1;
    }
    assert(tris.take(k as int) =~= tris);
    let ghost segs = chains_of(p);
    let mut lines: Vec<Line> = Vec::new();
    let mut k: usize = 0;
    while k < chains.len()
        invariant
            0 <= k <= chains@.len(),
            chains_view(chains@) == segs,
            lines@ == segs.take(k as int).flatten(),
        decreases chains@.len() - k,
    {
        assert(chains_view(chains@)[k as int] == chains@[k as int]@);
        extend_lines(&mut lines, &chains[k]);
        proof {
            assert(segs.take(k + 1) =~= segs.take(k as int).push(segs[k as int]));
            segs.take(k as int).lemma_flatten_push(segs[k as int]);
        }
        k = k + 1;
    }
    assert(segs.take(k as int) =~= segs);
    Ok((triangles, lines))
}

} // verus!
