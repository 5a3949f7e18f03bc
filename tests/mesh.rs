use area_mesh::geometry::{berp, lerp, Line, Point, Triangle};
use area_mesh::pairing::{pair_points, Primitive};
use area_mesh::path::{interpolate_segment, points_along_path, MeshError, PathSegment};
use area_mesh::pixel::pack_rgba;
use area_mesh::runs::{find_areas, find_chains, Area};
use area_mesh::triangulate::{gen_mesh, make_quad, triangulate_area};
use area_mesh::TriangulatedArea;

fn pt(x: i32, y: i32) -> Point {
    Point::new(x, y)
}

fn ln(a: Point, b: Point) -> Line {
    Line { a, b }
}

fn horizontal(y: i32) -> Vec<PathSegment> {
    vec![PathSegment::MoveTo { x: 0, y }, PathSegment::LineTo { x: 10000, y }]
}

fn signed_area2(t: &Triangle) -> i64 {
    let (a, b, c) = (t.a, t.b, t.c);
    (b.y as i64 - a.y as i64) * (c.x as i64 - a.x as i64) - (b.x as i64 - a.x as i64) * (c.y as i64 - a.y as i64)
}

#[test]
fn two_parallel_lines_make_one_quad() {
    let (triangles, lines) = gen_mesh(&horizontal(0), &horizontal(10000), 2, 1).unwrap();
    assert_eq!(
        triangles,
        vec![
            Triangle { a: pt(0, 0), b: pt(0, 10000), c: pt(10000, 10000) },
            Triangle { a: pt(10000, 10000), b: pt(10000, 0), c: pt(0, 0) },
        ]
    );
    assert!(lines.is_empty());
}

#[test]
fn identical_paths_make_one_chain() {
    let (triangles, lines) = gen_mesh(&horizontal(0), &horizontal(0), 2, 1).unwrap();
    assert!(triangles.is_empty());
    assert_eq!(lines, vec![ln(pt(0, 0), pt(10000, 0))]);
    let (triangles, lines) = gen_mesh(&horizontal(0), &horizontal(0), 10, 1).unwrap();
    assert!(triangles.is_empty());
    assert_eq!(lines.len(), 5);
    for (k, l) in lines.iter().enumerate() {
        assert_eq!(*l, ln(pt(2000 * k as i32, 0), pt(2000 * (k as i32 + 1), 0)));
    }
}

#[test]
fn missing_move_is_malformed() {
    let path = vec![PathSegment::LineTo { x: 10000, y: 0 }];
    assert_eq!(points_along_path(&path, 10), Err(MeshError::MissingMoveTo));
    assert_eq!(gen_mesh(&path, &horizontal(0), 10, 1), Err(MeshError::MissingMoveTo));
    assert_eq!(gen_mesh(&horizontal(0), &path, 10, 1), Err(MeshError::MissingMoveTo));
}

#[test]
fn second_move_is_a_subpath() {
    let mut path = horizontal(0);
    path.push(PathSegment::MoveTo { x: 1, y: 1 });
    assert_eq!(points_along_path(&path, 10), Err(MeshError::Subpath));
}

#[test]
fn other_commands_are_refused() {
    let mut path = horizontal(0);
    path.push(PathSegment::Unsupported);
    assert_eq!(points_along_path(&path, 10), Err(MeshError::UnsupportedCommand));
    assert_eq!(gen_mesh(&path, &path, 10, 1), Err(MeshError::UnsupportedCommand));
}

#[test]
fn unequal_sample_counts_are_refused() {
    let mut bottom = horizontal(100);
    bottom.push(PathSegment::LineTo { x: 20000, y: 100 });
    assert_eq!(gen_mesh(&horizontal(0), &bottom, 10, 1), Err(MeshError::LengthMismatch));
    assert!(TriangulatedArea::new(&horizontal(0), &bottom, 10, 1).is_err());
}

#[test]
fn empty_and_move_only_paths() {
    assert_eq!(points_along_path(&vec![], 10), Ok(vec![]));
    assert_eq!(points_along_path(&vec![PathSegment::MoveTo { x: 3, y: 4 }], 10), Ok(vec![pt(3, 4)]));
    assert_eq!(gen_mesh(&vec![], &vec![], 10, 1), Ok((vec![], vec![])));
}

#[test]
fn samples_of_each_command() {
    let cur = pt(2, 3);
    assert_eq!(
        interpolate_segment(cur, PathSegment::HorizontalLineTo { x: 12 }, 4),
        Ok(vec![pt(2, 3), pt(7, 3), pt(12, 3)])
    );
    assert_eq!(
        interpolate_segment(cur, PathSegment::VerticalLineTo { y: 13 }, 4),
        Ok(vec![pt(2, 3), pt(2, 8), pt(2, 13)])
    );
    assert_eq!(interpolate_segment(cur, PathSegment::LineTo { x: 9, y: 9 }, 1), Ok(vec![pt(9, 9)]));
    let curve = PathSegment::CurveTo { x1: 0, y1: 0, x2: 10, y2: 10, x: 10, y: 10 };
    assert_eq!(interpolate_segment(pt(0, 0), curve, 2), Ok(vec![pt(0, 0), pt(5, 5), pt(10, 10)]));
    assert_eq!(interpolate_segment(cur, PathSegment::MoveTo { x: 0, y: 0 }, 2), Err(MeshError::Subpath));
}

#[test]
fn path_keeps_start_and_last_destination() {
    let path = vec![
        PathSegment::MoveTo { x: 0, y: 0 },
        PathSegment::LineTo { x: 4, y: 0 },
        PathSegment::VerticalLineTo { y: 4 },
    ];
    assert_eq!(points_along_path(&path, 4), Ok(vec![pt(0, 0), pt(2, 0), pt(4, 0), pt(4, 2), pt(4, 4)]));
}

#[test]
fn interpolation_values() {
    assert_eq!(lerp(0, 10, 1, 3), 3);
    assert_eq!(lerp(0, -10, 1, 3), -4);
    assert_eq!(lerp(-7, 9, 0, 5), -7);
    assert_eq!(lerp(-7, 9, 5, 5), 9);
    assert_eq!(berp(0, 0, 10, 10, 1, 2), 5);
    assert_eq!(berp(0, 30, 60, 90, 1, 3), 30);
    assert_eq!(berp(i32::MIN, i32::MAX, i32::MIN, i32::MAX, 1, 2), -1);
    assert_eq!(pt(0, 0).lerp(pt(10, 20), 1, 2), pt(5, 10));
    assert_eq!(pt(1, 1).average(pt(2, -2)), pt(1, -1));
    assert_eq!(pt(0, 0).distance_sq(pt(3, 4)), 25);
    assert_eq!(pt(i32::MIN, i32::MIN).distance_sq(pt(i32::MAX, i32::MAX)), 2 * 0xffff_ffffi128 * 0xffff_ffffi128);
}

#[test]
fn pairing_by_threshold() {
    let top = vec![pt(0, 0), pt(1, 0), pt(2, 0)];
    let bottom = vec![pt(0, 6), pt(1, 5), pt(2, 0)];
    let prims = pair_points(&top, &bottom, 5);
    assert_eq!(prims.len(), 3);
    assert_eq!(prims[0], Primitive::Line(ln(pt(0, 0), pt(0, 6))));
    assert_eq!(prims[1], Primitive::Point(pt(1, 2)));
    assert_eq!(prims[2], Primitive::Point(pt(2, 0)));
    assert!(prims[0].is_line() && !prims[1].is_line());
}

#[test]
fn chains_and_areas_of_a_mixed_sequence() {
    let p = |x: i32| Primitive::Point(pt(x, 0));
    let l = |x: i32| Primitive::Line(ln(pt(x, 0), pt(x, 10)));
    let prims = vec![p(0), p(1), p(2), l(3), p(4), l(5), p(6), p(7)];
    let chains = find_chains(&prims);
    assert_eq!(chains.len(), 2);
    assert_eq!(chains[0], vec![ln(pt(0, 0), pt(1, 0)), ln(pt(1, 0), pt(2, 0))]);
    assert_eq!(chains[1], vec![ln(pt(6, 0), pt(7, 0))]);
    let areas = find_areas(&prims);
    assert_eq!(areas.len(), 2);
    assert_eq!(areas[0].start, Some(pt(2, 0)));
    assert_eq!(areas[0].middle, vec![ln(pt(3, 0), pt(3, 10))]);
    assert_eq!(areas[0].end, Some(pt(4, 0)));
    assert_eq!(areas[1].start, Some(pt(4, 0)));
    assert_eq!(areas[1].end, Some(pt(6, 0)));
}

#[test]
fn areas_at_the_ends_have_no_caps() {
    let l = |x: i32| Primitive::Line(ln(pt(x, 0), pt(x, 10)));
    let prims = vec![l(0), l(1), Primitive::Point(pt(2, 5)), l(3)];
    let areas = find_areas(&prims);
    assert_eq!(areas.len(), 2);
    assert_eq!(areas[0].start, None);
    assert_eq!(areas[0].middle.len(), 2);
    assert_eq!(areas[0].end, Some(pt(2, 5)));
    assert_eq!(areas[1].start, Some(pt(2, 5)));
    assert_eq!(areas[1].end, None);
    assert!(find_chains(&prims).is_empty());
    assert!(find_areas(&vec![]).is_empty() && find_chains(&vec![]).is_empty());
}

#[test]
fn ladder_without_caps_is_one_quad() {
    let area = Area { start: None, middle: vec![ln(pt(0, 0), pt(0, 10)), ln(pt(10, 0), pt(10, 10))], end: None };
    let tris = triangulate_area(&area);
    let quad = make_quad(area.middle[0], area.middle[1]);
    assert_eq!(tris, vec![quad[0], quad[1]]);
}

#[test]
fn capped_ladder_triangles_are_counter_clockwise() {
    let middle: Vec<Line> = (1..=4).map(|k| ln(pt(10 * k, 0), pt(10 * k, 10 + k))).collect();
    let area = Area { start: Some(pt(0, 50)), middle, end: Some(pt(60, -3)) };
    let tris = triangulate_area(&area);
    assert_eq!(tris.len(), 2 * (4 - 1) + 2);
    assert_eq!(tris[0], Triangle { a: pt(0, 50), b: pt(10, 11), c: pt(10, 0) });
    assert_eq!(tris[7], Triangle { a: pt(60, -3), b: pt(40, 0), c: pt(40, 14) });
    for t in &tris {
        assert!(signed_area2(t) > 0);
    }
}

#[test]
fn single_line_with_caps() {
    let area = Area { start: Some(pt(0, 5)), middle: vec![ln(pt(1, 0), pt(1, 10))], end: Some(pt(2, 5)) };
    let tris = triangulate_area(&area);
    assert_eq!(
        tris,
        vec![
            Triangle { a: pt(0, 5), b: pt(1, 10), c: pt(1, 0) },
            Triangle { a: pt(2, 5), b: pt(1, 0), c: pt(1, 10) },
        ]
    );
}

#[test]
fn mesh_is_reproducible() {
    let top = vec![
        PathSegment::MoveTo { x: 0, y: 0 },
        PathSegment::CurveTo { x1: 100, y1: -50, x2: 200, y2: 50, x: 300, y: 0 },
        PathSegment::HorizontalLineTo { x: 400 },
    ];
    let bottom = vec![
        PathSegment::MoveTo { x: 0, y: 0 },
        PathSegment::CurveTo { x1: 100, y1: 50, x2: 200, y2: 150, x: 300, y: 100 },
        PathSegment::HorizontalLineTo { x: 400 },
    ];
    let first = gen_mesh(&top, &bottom, 10, 1);
    let second = gen_mesh(&top, &bottom, 10, 1);
    assert_eq!(first, second);
    let (triangles, lines) = first.unwrap();
    // the curves meet only at their first sample
    assert_eq!(lines.len(), 0);
    assert_eq!(triangles.len(), 2 * (15 - 1) + 1);
    let area = TriangulatedArea::new(&top, &bottom, 10, 1).unwrap();
    assert_eq!(area.triangles(), &triangles);
    assert!(area.lines().is_empty());
}

#[test]
fn pixel_packing() {
    assert_eq!(pack_rgba([1, 2, 3, 4]), 0x0102_0304);
    assert_eq!(pack_rgba([255, 0, 0, 255]), 0xff00_00ff);
    assert_eq!(pack_rgba([0, 0, 0, 0]), 0);
}

#[test]
fn error_messages() {
    assert_eq!(MeshError::MissingMoveTo.message(), "Path must begin with MoveTo");
    assert_eq!(MeshError::Subpath.message(), "Subpaths not supported");
}
