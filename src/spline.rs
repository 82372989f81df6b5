use vstd::prelude::*;

use crate::geometry::{Point2, ScaledPoint};

verus! {

/// Denominator of the computed control points: thirds of a grid unit,
/// times the thousandths in which a tension is given.
pub const CONTROL_DEN: i64 = 3000;

/// Tension of a spline end, in thousandths (`300` is `0.3`).
#[derive(Clone, Copy, Debug, PartialEq, Eq, Structural)]
pub struct Tension {
    pub milli: i16,
}

impl Tension {
    /// The tension that callers use unless they pick another: `0.3`.
    pub fn standard() -> (r: Tension)
        ensures
            r.milli == 300,
    {
        Tension { milli: 300 }
    }
}

/// One cubic Bezier segment: the anchors `p0` and `p3` are sample points,
/// the controls `c1` and `c2` are over the denominator `CONTROL_DEN`.
#[derive(Clone, Copy, Debug, PartialEq, Eq, Structural)]
pub struct ControlQuad {
    pub p0: Point2,
    pub c1: ScaledPoint,
    pub c2: ScaledPoint,
    pub p3: Point2,
}

/// The sample before the pair that starts at `i`, or its first point at
/// the start of the sequence.
pub open spec fn neighbor_before(pts: Seq<Point2>, i: int) -> Point2 {
    if i > 0 {
        pts[i - 1]
    } else {
        pts[i]
    }
}

/// The sample after the pair that starts at `i`, or its second point at
/// the end of the sequence.
pub open spec fn neighbor_after(pts: Seq<Point2>, i: int) -> Point2 {
    if i < pts.len() - 2 {
        pts[i + 2]
    } else {
        pts[i + 1]
    }
}

/// Tension in effect at the start of segment `i`: none on the first
/// segment, nor where `p2.y - p1.y == p2.y - p0.y`.
pub open spec fn start_tension(pts: Seq<Point2>, i: int, t: int) -> int {
    let p0 = neighbor_before(pts, i);
    let p1 = pts[i];
    let p2 = pts[i + 1];
    if i == 0 || p2.y - p1.y == p2.y - p0.y {
        0
    } else {
        t
    }
}

/// Tension in effect at the end of segment `i`: none on the last
/// segment, nor where `p3.y - p2.y == p2.y - p1.y`.
pub open spec fn end_tension(pts: Seq<Point2>, i: int, t: int) -> int {
    let p1 = pts[i];
    let p2 = pts[i + 1];
    let p3 = neighbor_after(pts, i);
    if i == pts.len() - 2 || p3.y - p2.y == p2.y - p1.y {
        0
    } else {
        t
    }
}

/// `CONTROL_DEN` times `p1.x + (p2.x - p1.x) / 3`.
pub open spec fn control1_x(p1: Point2, p2: Point2) -> int {
    3000 * p1.x + 1000 * (p2.x - p1.x)
}

/// `CONTROL_DEN` times `p1.y - (p1.y - p2.y) / 3 - (p0.y - p1.y) * t / 1000`.
pub open spec fn control1_y(p0: Point2, p1: Point2, p2: Point2, t: int) -> int {
    3000 * p1.y - 1000 * (p1.y - p2.y) - 3 * t * (p0.y - p1.y)
}

/// `CONTROL_DEN` times `p1.x + 2 * (p2.x - p1.x) / 3`.
pub open spec fn control2_x(p1: Point2, p2: Point2) -> int {
    3000 * p1.x + 2000 * (p2.x - p1.x)
}

/// `CONTROL_DEN` times `p1.y - 2 * (p1.y - p2.y) / 3 + (p2.y - p3.y) * t / 1000`.
pub open spec fn control2_y(p1: Point2, p2: Point2, p3: Point2, t: int) -> int {
    3000 * p1.y - 2000 * (p1.y - p2.y) + 3 * t * (p2.y - p3.y)
}

/// `q` is the segment that the fit builds between `pts[i]` and
/// `pts[i + 1]` with the tensions `ta` and `tb`.
pub open spec fn is_segment(q: ControlQuad, pts: Seq<Point2>, i: int, ta: int, tb: int) -> bool {
    let p0 = neighbor_before(pts, i);
    let p1 = pts[i];
    let p2 = pts[i + 1];
    let p3 = neighbor_after(pts, i);
    &&& q.p0 == p1
    &&& q.p3 == p2
    &&& q.c1.x == control1_x(p1, p2)
    &&& q.c1.y == control1_y(p0, p1, p2, start_tension(pts, i, ta))
    &&& q.c2.x == control2_x(p1, p2)
    &&& q.c2.y == control2_y(p1, p2, p3, end_tension(pts, i, tb))
}

/// Number of segments fitted through `n` points.
pub open spec fn segment_count(n: int) -> int {
    if n < 2 {
        0
    } else {
        n - 1
    }
}

/// `segs` is the curve fitted through `pts` with the tensions `ta` and `tb`.
pub open spec fn fits(segs: Seq<ControlQuad>, pts: Seq<Point2>, ta: int, tb: int) -> bool {
    &&& segs.len() == segment_count(pts.len() as int)
    &&& forall|i: int| 0 <= i < segs.len() ==> is_segment(#[trigger] segs[i], pts, i, ta, tb)
}

/// `3 * t * d`, for a difference `d` of two grid coordinates.
fn tension_term(t: i16, d: i64) -> (r: i64)
    requires
        -0x1_0000_0000 <= d <= 0x1_0000_0000,
    ensures
        r == 3 * t * d,
        -0x2_0000_0000_0000 <= r <= 0x2_0000_0000_0000,
{
    proof {
        let ti = t as int;
        assert(-0x8000 * 0x1_0000_0000 <= ti * d <= 0x8000 * 0x1_0000_0000) by (nonlinear_arith)
            requires
                -0x1_0000_0000 <= d <= 0x1_0000_0000,
                -0x8000 <= ti <= 0x7fff,
        ;
    }
    let p = (t as i64) * d;
    proof {
        assert(3 * p == 3 * t * d) by (nonlinear_arith)
            requires
                p == t * d,
        ;
    }
    3 * p
}

/// Fits a piecewise cubic curve through `points`: one segment per pair of
/// consecutive points, with control points from a cardinal spline.
pub fn generate_path(points: &Vec<Point2>, tension1: Tension, tension2: Tension) -> (r: Vec<
    ControlQuad,
>)
    ensures
        fits(r@, points@, tension1.milli as int, tension2.milli as int),
{
    let mut path: Vec<ControlQuad> = Vec::new();
    let n = points.len();
    if n < 2 {
        return path;
    }
    let mut i: usize = 0;
    while i < n - 1
        invariant
            n == points@.len(),
            n >= 2,
            i <= n - 1,
            path@.len() == i,
            forall|j: int|
                0 <= j < i ==> is_segment(
                    #[trigger] path@[j],
                    points@,
                    j,
                    tension1.milli as int,
                    tension2.milli as int,
                ),
        decreases n - 1 - i,
    {
        let p1 = points[i];
        let p2 = points[i + 1];
        let p0 = if i > 0 {
            points[i - 1]
        } else {
            p1
        };
        let p3 = if i < n - 2 {
            points[i + 2]
        } else {
            p2
        };
        let t1 = if i == 0 || (p2.y as i64 - p1.y as i64) == (p2.y as i64 - p0.y as i64) {
            0i16
        } else {
            tension1.milli
        };
        let t2 = if i == n - 2 || (p3.y as i64 - p2.y as i64) == (p2.y as i64 - p1.y as i64) {
            0i16
        } else {
            tension2.milli
        };
        let (x1, y1, x2, y2) = (p1.x as i64, p1.y as i64, p2.x as i64, p2.y as i64);
        let c1 = ScaledPoint {
            x: 3000 * x1 + 1000 * (x2 - x1),
            y: 3000 * y1 - 1000 * (y1 - y2) - tension_term(t1, p0.y as i64 - y1),
        };
        let c2 = ScaledPoint {
            x: 3000 * x1 + 2000 * (x2 - x1),
            y: 3000 * y1 - 2000 * (y1 - y2) + tension_term(t2, y2 - p3.y as i64),
        };
        path.push(ControlQuad { p0: p1, c1, c2, p3: p2 });
        i = i + 1;
    }
    path
}

/// The first segment starts, and the last segment ends, without tension:
/// its control point is the one that a zero tension gives.
pub proof fn lemma_outer_segments_untensioned(
    segs: Seq<ControlQuad>,
    pts: Seq<Point2>,
    ta: int,
    tb: int,
)
    requires
        pts.len() >= 2,
        fits(segs, pts, ta, tb),
    ensures
        start_tension(pts, 0, ta) == 0,
        end_tension(pts, pts.len() - 2, tb) == 0,
        segs[0].c1.y == control1_y(pts[0], pts[0], pts[1], 0),
        segs.last().c2.y == control2_y(
            pts[pts.len() - 2],
            pts[pts.len() - 1],
            pts[pts.len() - 1],
            0,
        ),
{
    assert(is_segment(segs[0], pts, 0, ta, tb));
    assert(is_segment(segs[segs.len() - 1], pts, pts.len() - 2, ta, tb));
}

proof fn lemma_zero_tension(p0: Point2, p1: Point2, p2: Point2, p3: Point2)
    ensures
        control1_y(p0, p1, p2, 0) == 3000 * p1.y - 1000 * (p1.y - p2.y),
        control2_y(p1, p2, p3, 0) == 3000 * p1.y - 2000 * (p1.y - p2.y),
{
    assert(3 * 0 * (p0.y - p1.y) == 0) by (nonlinear_arith);
    assert(3 * 0 * (p2.y - p3.y) == 0) by (nonlinear_arith);
}

/// Both anchors and both controls of `q` lie on the line `y = x`.
pub open spec fn on_diagonal(q: ControlQuad) -> bool {
    &&& q.p0.x == q.p0.y
    &&& q.c1.x == q.c1.y
    &&& q.c2.x == q.c2.y
    &&& q.p3.x == q.p3.y
}

/// Points of `y = x` at evenly spaced positions.
pub open spec fn evenly_spaced_identity(pts: Seq<Point2>) -> bool {
    &&& pts.len() >= 2
    &&& forall|i: int| 0 <= i < pts.len() ==> #[trigger] pts[i].y == pts[i].x
    &&& forall|i: int|
        0 <= i < pts.len() - 1 ==> #[trigger] pts[i + 1].x - pts[i].x == pts[1].x - pts[0].x
}

/// Fitted through evenly spaced points of `y = x`, every segment ends in a
/// control point on the line, and so does the start of the first segment;
/// the later segments start on the line where the start tension is zero.
pub proof fn lemma_linear_input(segs: Seq<ControlQuad>, pts: Seq<Point2>, ta: int, tb: int)
    requires
        evenly_spaced_identity(pts),
        fits(segs, pts, ta, tb),
    ensures
        forall|i: int|
            0 <= i < segs.len() ==> {
                &&& (#[trigger] segs[i]).p0.x == segs[i].p0.y
                &&& segs[i].p3.x == segs[i].p3.y
                &&& segs[i].c2.x == segs[i].c2.y
            },
        segs[0].c1.x == segs[0].c1.y,
        ta == 0 ==> forall|i: int| 0 <= i < segs.len() ==> on_diagonal(#[trigger] segs[i]),
{
    assert forall|i: int| 0 <= i < segs.len() implies {
        &&& (#[trigger] segs[i]).p0.x == segs[i].p0.y
        &&& segs[i].p3.x == segs[i].p3.y
        &&& segs[i].c2.x == segs[i].c2.y
        &&& (i == 0 || ta == 0) ==> segs[i].c1.x == segs[i].c1.y
    } by {
        assert(is_segment(segs[i], pts, i, ta, tb));
        assert(pts[i].y == pts[i].x);
        assert(pts[i + 1].y == pts[i + 1].x);
        assert(pts[i + 1].x - pts[i].x == pts[1].x - pts[0].x);
        if i < pts.len() - 2 {
            assert(pts[i + 2].y == pts[i + 2].x);
            assert(pts[(i + 1) + 1].x - pts[i + 1].x == pts[1].x - pts[0].x);
        }
        assert(end_tension(pts, i, tb) == 0);
        lemma_zero_tension(neighbor_before(pts, i), pts[i], pts[i + 1], neighbor_after(pts, i));
        if i == 0 || ta == 0 {
            assert(start_tension(pts, i, ta) == 0);
        }
    }
}

} // verus!
