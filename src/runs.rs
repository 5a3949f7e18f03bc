//! Splitting the classified samples into maximal runs: runs of lines become
//! areas, runs of two or more points become chains.
use crate::geometry::{Line, Point};
use crate::pairing::Primitive;
use vstd::prelude::*;

verus! {

/// A maximal run of lines, with the points just before and just after it
/// where the run does not touch an end of the sequence.
pub struct Area {
    pub start: Option<Point>,
    pub middle: Vec<Line>,
    pub end: Option<Point>,
}

/// What an area holds, as values.
pub struct AreaView {
    pub start: Option<Point>,
    pub middle: Seq<Line>,
    pub end: Option<Point>,
}

impl View for Area {
    type V = AreaView;

    open spec fn view(&self) -> AreaView {
        AreaView { start: self.start, middle: self.middle@, end: self.end }
    }
}

/// The end of the run of lines (`lines`) or of points (`!lines`) at `i`: the
/// first index from `i` on that holds the other kind, or the length.
pub open spec fn run_end(p: Seq<Primitive>, i: int, lines: bool) -> int
    decreases p.len() - i,
{
    if i < 0 || i >= p.len() || (p[i] is Line) != lines {
        i
    } else {
        run_end(p, i + 1, lines)
    }
}

/// A run ends within the sequence, after its first element when that is of
/// the kind sought, holds only that kind, and stops at the other kind.
pub proof fn lemma_run_end(p: Seq<Primitive>, i: int, lines: bool)
    requires
        0 <= i <= p.len(),
    ensures
        i <= run_end(p, i, lines) <= p.len(),
        i < p.len() && (p[i] is Line) == lines ==> i < run_end(p, i, lines),
        forall|k: int| i <= k < run_end(p, i, lines) ==> (#[trigger] p[k] is Line) == lines,
        run_end(p, i, lines) < p.len() ==> (p[run_end(p, i, lines)] is Line) != lines,
    decreases p.len() - i,
{
    if i < p.len() && (p[i] is Line) == lines {
        lemma_run_end(p, i + 1, lines);
    }
}

/// Whether `i` does not fall inside a run of the given kind.
pub open spec fn at_boundary(p: Seq<Primitive>, i: int, lines: bool) -> bool {
    i == 0 || i == p.len() || (p[i - 1] is Line) != lines || (p[i] is Line) != lines
}

/// What one run `[s, e)` of `runs` is: at least `min_len` elements of one
/// kind, not extendable on either side.
pub open spec fn is_run(p: Seq<Primitive>, s: int, e: int, lines: bool, min_len: int) -> bool {
    &&& 0 <= s
    &&& s + min_len <= e <= p.len()
    &&& e == run_end(p, s, lines)
    &&& forall|j: int| s <= j < e ==> (#[trigger] p[j] is Line) == lines
    &&& s > 0 ==> (p[s - 1] is Line) != lines
    &&& e < p.len() ==> (p[e] is Line) != lines
}

/// Every range that `runs` lists from a boundary lies after it and is a
/// maximal run.
pub proof fn lemma_runs(p: Seq<Primitive>, from: int, lines: bool, min_len: int)
    requires
        0 <= from <= p.len(),
        min_len >= 1,
        at_boundary(p, from, lines),
    ensures
        forall|k: int|
            0 <= k < runs(p, from, lines, min_len).len() ==> from <= (#[trigger] runs(p, from, lines, min_len)[k]).0
                && is_run(p, runs(p, from, lines, min_len)[k].0, runs(p, from, lines, min_len)[k].1, lines, min_len),
    decreases p.len() - from,
{
    if from < p.len() {
        if (p[from] is Line) != lines {
            lemma_runs(p, from + 1, lines, min_len);
            assert(runs(p, from, lines, min_len) == runs(p, from + 1, lines, min_len));
        } else {
            lemma_run_end(p, from, lines);
            let e = run_end(p, from, lines);
            lemma_runs(p, e, lines, min_len);
            let rest = runs(p, e, lines, min_len);
            if e - from >= min_len {
                let all = runs(p, from, lines, min_len);
                assert(all == seq![(from, e)] + rest);
                assert forall|k: int| 0 <= k < all.len() implies from <= (#[trigger] all[k]).0
                    && is_run(p, all[k].0, all[k].1, lines, min_len) by {
                    if k > 0 {
                        assert(all[k] == rest[k - 1]);
                    } else {
                        assert(all[k] == (from, e));
                    }
                }
            } else {
                assert(runs(p, from, lines, min_len) == rest);
            }
        }
    }
}

/// Every maximal run of at least `min_len` elements after a boundary is
/// listed by `runs`.
pub proof fn lemma_runs_complete(p: Seq<Primitive>, from: int, lines: bool, min_len: int, s: int, e: int)
    requires
        0 <= from <= s,
        min_len >= 1,
        at_boundary(p, from, lines),
        is_run(p, s, e, lines, min_len),
    ensures
        exists|k: int| 0 <= k < runs(p, from, lines, min_len).len() && #[trigger] runs(p, from, lines, min_len)[k] == (s, e),
    decreases p.len() - from,
{
    let all = runs(p, from, lines, min_len);
    if (p[from] is Line) != lines {
        assert(from < s);
        lemma_runs_complete(p, from + 1, lines, min_len, s, e);
        assert(all == runs(p, from + 1, lines, min_len));
    } else {
        lemma_run_end(p, from, lines);
        let e1 = run_end(p, from, lines);
        if from == s {
            assert(all[0] == (s, e));
        } else {
            assert(!(from <= s - 1 < e1));
            lemma_runs_complete(p, e1, lines, min_len, s, e);
            let rest = runs(p, e1, lines, min_len);
            let k = choose|k: int| 0 <= k < rest.len() && #[trigger] rest[k] == (s, e);
            if e1 - from >= min_len {
                assert(all == seq![(from, e1)] + rest);
                assert(all[k + 1] == (s, e));
            } else {
                assert(all == rest);
            }
        }
    }
}

/// The chains of a classified sequence are exactly its maximal runs of two
/// or more points, each joined by one segment less than it has points; a
/// lone point gives no chain.
pub proof fn lemma_chains(p: Seq<Primitive>)
    ensures
        chains_of(p).len() == runs(p, 0, false, 2).len(),
        forall|k: int|
            0 <= k < chains_of(p).len() ==> {
                let (s, e) = #[trigger] runs(p, 0, false, 2)[k];
                &&& is_run(p, s, e, false, 2)
                &&& chains_of(p)[k].len() == e - s - 1
                &&& forall|j: int|
                    0 <= j < e - s - 1 ==> #[trigger] chains_of(p)[k][j] == (Line {
                        a: p[s + j]->Point_0,
                        b: p[s + j + 1]->Point_0,
                    })
            },
        forall|s: int, e: int|
            #[trigger] is_run(p, s, e, false, 2) ==> exists|k: int|
                0 <= k < chains_of(p).len() && #[trigger] runs(p, 0, false, 2)[k] == (s, e),
        forall|s: int, k: int|
            #[trigger] is_run(p, s, s + 1, false, 1) && 0 <= k < chains_of(p).len() ==> #[trigger] runs(p, 0, false, 2)[k].0
                != s,
{
    lemma_runs(p, 0, false, 2);
    assert forall|s: int, e: int| #[trigger] is_run(p, s, e, false, 2) implies exists|k: int|
        0 <= k < chains_of(p).len() && #[trigger] runs(p, 0, false, 2)[k] == (s, e) by {
        lemma_runs_complete(p, 0, false, 2, s, e);
    }
}

/// Each area of a classified sequence is a maximal run of lines, never
/// empty, capped at the start by the point before it and at the end by the
/// point after it, where the run does not touch that end of the sequence.
pub proof fn lemma_areas(p: Seq<Primitive>)
    ensures
        areas_of(p).len() == runs(p, 0, true, 1).len(),
        forall|k: int|
            0 <= k < areas_of(p).len() ==> {
                let (s, e) = #[trigger] runs(p, 0, true, 1)[k];
                let a = areas_of(p)[k];
                &&& is_run(p, s, e, true, 1)
                &&& a.middle.len() == e - s > 0
                &&& (a.start is None <==> s == 0)
                &&& (a.start is Some ==> p[s - 1] == Primitive::Point(a.start->Some_0))
                &&& (a.end is None <==> e == p.len())
                &&& (a.end is Some ==> p[e] == Primitive::Point(a.end->Some_0))
            },
{
    lemma_runs(p, 0, true, 1);
}

#[via_fn]
proof fn runs_decreases(p: Seq<Primitive>, from: int, lines: bool, min_len: int) {
    if 0 <= from < p.len() && (p[from] is Line) == lines {
        lemma_run_end(p, from, lines);
    }
}

/// The maximal runs of lines (`lines`) or of points (`!lines`) from `from`
/// on, as index ranges `[s, e)`, in order, keeping those of at least
/// `min_len` elements.
pub open spec fn runs(p: Seq<Primitive>, from: int, lines: bool, min_len: int) -> Seq<(int, int)>
    decreases p.len() - from,
    via runs_decreases
{
    if from < 0 || from >= p.len() {
        Seq::empty()
    } else if (p[from] is Line) != lines {
        runs(p, from + 1, lines, min_len)
    } else {
        let e = run_end(p, from, lines);
        if e - from >= min_len {
            seq![(from, e)] + runs(p, e, lines, min_len)
        } else {
            runs(p, e, lines, min_len)
        }
    }
}

/// The area that the run of lines `[s, e)` makes.
pub open spec fn area_at(p: Seq<Primitive>, s: int, e: int) -> AreaView {
    AreaView {
        start: if s > 0 { Some(p[s - 1]->Point_0) } else { None },
        middle: Seq::new((e - s) as nat, |k: int| p[s + k]->Line_0),
        end: if e < p.len() { Some(p[e]->Point_0) } else { None },
    }
}

/// The segments that join consecutive points of the run `[s, e)`.
pub open spec fn chain_at(p: Seq<Primitive>, s: int, e: int) -> Seq<Line> {
    Seq::new((e - s - 1) as nat, |k: int| Line { a: p[s + k]->Point_0, b: p[s + k + 1]->Point_0 })
}

/// The areas of a classified sequence, in order.
pub open spec fn areas_of(p: Seq<Primitive>) -> Seq<AreaView> {
    runs(p, 0, true, 1).map_values(|r: (int, int)| area_at(p, r.0, r.1))
}

/// The chains of a classified sequence, in order.
pub open spec fn chains_of(p: Seq<Primitive>) -> Seq<Seq<Line>> {
    runs(p, 0, false, 2).map_values(|r: (int, int)| chain_at(p, r.0, r.1))
}

/// What each area of a vector holds.
pub open spec fn areas_view(v: Seq<Area>) -> Seq<AreaView> {
    v.map_values(|a: Area| a@)
}

/// Splits the sequence at its points: each maximal run of lines becomes an
/// area, capped by the points next to it.
pub fn find_areas(primitives: &Vec<Primitive>) -> (r: Vec<Area>)
    ensures
        areas_view(r@) == areas_of(primitives@),
{
    let ghost p = primitives@;
    let mut out: Vec<Area> = Vec::new();
    let mut i: usize = 0;
    while i < primitives.len()
        invariant
            p == primitives@,
            0 <= i <= p.len(),
            i > 0 && i < p.len() && p[i as int] is Line ==> !(p[i - 1] is Line),
            areas_of(p) == areas_view(out@) + runs(p, i as int, true, 1).map_values(
                |r: (int, int)| area_at(p, r.0, r.1),
            ),
        decreases p.len() - i,
    {
        match primitives[i] {
            Primitive::Point(_) => {
                i = i + 1;
            },
            Primitive::Line(_) => {
                let s = i;
                proof {
                    lemma_run_end(p, s as int, true);
                }
                let mut middle: Vec<Line> = Vec::new();
                while i < primitives.len() && primitives[i].is_line()
                    invariant
                        p == primitives@,
                        s <= i <= p.len(),
                        run_end(p, s as int, true) == run_end(p, i as int, true),
                        middle@ =~= Seq::new((i - s) as nat, |k: int| p[s + k]->Line_0),
                    decreases p.len() - i,
                {
                    middle.push(primitives[i].as_line());
                    i = i + 1;
                    assert(middle@ =~= Seq::new((i - s) as nat, |k: int| p[s + k]->Line_0));
                }
                let start = if s > 0 {
                    Some(primitives[s - 1].as_point())
                } else {
                    None
                };
                let end = if i < primitives.len() {
                    Some(primitives[i].as_point())
                } else {
                    None
                };
                let area = Area { start, middle, end };
                proof {
                    let f = |r: (int, int)| area_at(p, r.0, r.1);
                    let rest = runs(p, i as int, true, 1);
                    assert(runs(p, s as int, true, 1) == seq![(s as int, i as int)] + rest);
                    assert(area@ == area_at(p, s as int, i as int));
                    assert((seq![(s as int, i as int)] + rest).map_values(f) =~= seq![area@] + rest.map_values(f));
                    assert(areas_view(out@.push(area)) =~= areas_view(out@).push(area@));
                    assert(areas_view(out@) + (seq![area@] + rest.map_values(f))
                        =~= areas_view(out@).push(area@) + rest.map_values(f));
                }
                out.push(area);
            },
        }
    }
    assert(areas_view(out@) + Seq::<AreaView>::empty() =~= areas_view(out@));
    out
}

/// What each chain of a vector holds.
pub open spec fn chains_view(v: Seq<Vec<Line>>) -> Seq<Seq<Line>> {
    v.map_values(|c: Vec<Line>| c@)
}

/// Splits the sequence at its lines: each maximal run of two or more points
/// becomes a chain of the segments that join its consecutive points.
pub fn find_chains(primitives: &Vec<Primitive>) -> (r: Vec<Vec<Line>>)
    ensures
        chains_view(r@) == chains_of(primitives@),
{
    let ghost p = primitives@;
    let mut out: Vec<Vec<Line>> = Vec::new();
    let mut i: usize = 0;
    while i < primitives.len()
        invariant
            p == primitives@,
            0 <= i <= p.len(),
            i > 0 && i < p.len() && !(p[i as int] is Line) ==> p[i - 1] is Line,
            chains_of(p) == chains_view(out@) + runs(p, i as int, false, 2).map_values(
                |r: (int, int)| chain_at(p, r.0, r.1),
            ),
        decreases p.len() - i,
    {
        if primitives[i].is_line() {
            i = i + 1;
        } else {
            let s = i;
            proof {
                lemma_run_end(p, s as int, false);
            }
            i = i + 1;
            let mut chain: Vec<Line> = Vec::new();
            while i < primitives.len() && !primitives[i].is_line()
                invariant
                    p == primitives@,
                    s < i <= p.len(),
                    !(p[s as int] is Line),
                    run_end(p, s as int, false) == run_end(p, i as int, false),
                    forall|k: int| s <= k < i ==> !(#[trigger] p[k] is Line),
                    chain@ =~= chain_at(p, s as int, i as int),
                decreases p.len() - i,
            {
                let seg = Line { a: primitives[i - 1].as_point(), b: primitives[i].as_point() };
                chain.push(seg);
                i = i + 1;
                assert(chain@ =~= chain_at(p, s as int, i as int));
            }
            proof {
                let f = |r: (int, int)| chain_at(p, r.0, r.1);
                let rest = runs(p, i as int, false, 2);
                if i - s >= 2 {
                    assert(runs(p, s as int, false, 2) == seq![(s as int, i as int)] + rest);
                    assert((seq![(s as int, i as int)] + rest).map_values(f) =~= seq![chain@] + rest.map_values(f));
                    assert(chains_view(out@.push(chain)) =~= chains_view(out@).push(chain@));
                    assert(chains_view(out@) + (seq![chain@] + rest.map_values(f))
                        =~= chains_view(out@).push(chain@) + rest.map_values(f));
                } else {
                    assert(runs(p, s as int, false, 2) == rest);
                }
            }
            if i - s >= 2 {
                out.push(chain);
            }
        }
    }
    assert(chains_view(out@) + Seq::<Seq<Line>>::empty() =~= chains_view(out@));
    out
}

} // verus!
