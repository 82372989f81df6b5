use vstd::prelude::*;
use vstd::arithmetic::div_mod::lemma_div_multiples_vanish;

use crate::geometry::Rgba;
use crate::geometry::Point2;
use crate::spline::{
    evenly_spaced_identity, fits, lemma_linear_input, on_diagonal, ControlQuad, CONTROL_DEN,
};
use crate::store::Curve;

verus! {

/// A rendered position over the denominator of its polyline.
#[derive(Clone, Copy, Debug, PartialEq, Eq, Structural)]
pub struct PolylinePoint {
    pub x: i128,
    pub y: i128,
}

/// A connected line strip: its positions are `x / den`, `y / den`.
#[derive(Clone, Debug, PartialEq, Eq)]
pub struct Polyline {
    pub points: Vec<PolylinePoint>,
    pub den: i128,
    pub color: Rgba,
}

/// Positions per unit of the curve parameter: `n` evenly spaced positions
/// split the parameter range into `n - 1` steps.
pub open spec fn steps_of(n: int) -> int {
    if n >= 2 {
        n - 1
    } else {
        1
    }
}

/// Segment that position `k` falls in, with `s` segments and `b` steps.
pub open spec fn segment_of(k: int, s: int, b: int) -> int {
    if (k * s) / b < s {
        (k * s) / b
    } else {
        s - 1
    }
}

/// Parameter of position `k` within its segment, over the denominator `b`.
pub open spec fn local_param(k: int, s: int, b: int) -> int {
    k * s - segment_of(k, s, b) * b
}

/// Bernstein weights of a cubic at `a / b`, times `b` cubed.
pub open spec fn weight0(a: int, b: int) -> int {
    (b - a) * (b - a) * (b - a)
}

pub open spec fn weight1(a: int, b: int) -> int {
    3 * (b - a) * (b - a) * a
}

pub open spec fn weight2(a: int, b: int) -> int {
    3 * (b - a) * a * a
}

pub open spec fn weight3(a: int, b: int) -> int {
    a * a * a
}

/// One coordinate of a cubic Bezier at `a / b`, over `CONTROL_DEN * b^3`:
/// the anchors are grid values, the controls are over `CONTROL_DEN`.
pub open spec fn bezier(p0: int, c1: int, c2: int, p3: int, a: int, b: int) -> int {
    weight0(a, b) * (3000 * p0) + weight1(a, b) * c1 + weight2(a, b) * c2 + weight3(a, b) * (3000
        * p3)
}

/// The polyline position `k` of `segs` drawn with `n` positions, as
/// `(x, y)` over the polyline's denominator.
pub open spec fn rendered(segs: Seq<ControlQuad>, n: int, k: int) -> (int, int) {
    let b = steps_of(n);
    let i = segment_of(k, segs.len() as int, b);
    let a = local_param(k, segs.len() as int, b);
    let q = segs[i];
    (
        bezier(q.p0.x as int, q.c1.x as int, q.c2.x as int, q.p3.x as int, a, b),
        bezier(q.p0.y as int, q.c1.y as int, q.c2.y as int, q.p3.y as int, a, b),
    )
}

/// `pt` is the position `pos`.
pub open spec fn at(pt: PolylinePoint, pos: (int, int)) -> bool {
    pt.x == pos.0 && pt.y == pos.1
}

proof fn lemma_mul_range(w: int, c: int, wm: int, cm: int)
    requires
        0 <= w <= wm,
        -cm <= c <= cm,
    ensures
        -(wm * cm) <= w * c <= wm * cm,
{
    assert(-(wm * cm) <= w * c <= wm * cm) by (nonlinear_arith)
        requires
            0 <= w <= wm,
            -cm <= c <= cm,
    ;
}

proof fn lemma_weight_bounds(a: int, b: int)
    requires
        0 <= a <= b <= 0xffff,
    ensures
        0 <= (b - a) * (b - a) <= 0x1_0000_0000,
        0 <= a * a <= 0x1_0000_0000,
        0 <= 3 * (b - a) * (b - a) <= 0x3_0000_0000,
        0 <= 3 * (b - a) * a <= 0x3_0000_0000,
        0 <= weight0(a, b) <= 0x3_0000_0000_0000,
        0 <= weight1(a, b) <= 0x3_0000_0000_0000,
        0 <= weight2(a, b) <= 0x3_0000_0000_0000,
        0 <= weight3(a, b) <= 0x3_0000_0000_0000,
{
    let e = b - a;
    assert(0 <= e * e <= 0x1_0000_0000) by (nonlinear_arith)
        requires
            0 <= e <= 0x1_0000,
    ;
    assert(0 <= a * a <= 0x1_0000_0000) by (nonlinear_arith)
        requires
            0 <= a <= 0x1_0000,
    ;
    assert(0 <= 3 * e * e <= 0x3_0000_0000) by (nonlinear_arith)
        requires
            0 <= e * e <= 0x1_0000_0000,
    ;
    assert(0 <= 3 * e * a <= 0x3_0000_0000) by (nonlinear_arith)
        requires
            0 <= e <= 0x1_0000,
            0 <= a <= 0x1_0000,
    ;
    lemma_mul_range(e * e, e, 0x1_0000_0000, 0x1_0000);
    lemma_mul_range(a * a, a, 0x1_0000_0000, 0x1_0000);
    lemma_mul_range(3 * e * e, a, 0x3_0000_0000, 0x1_0000);
    lemma_mul_range(3 * e * a, a, 0x3_0000_0000, 0x1_0000);
    assert(0 <= e * e * e) by (nonlinear_arith)
        requires
            0 <= e,
    ;
    assert(0 <= a * a * a) by (nonlinear_arith)
        requires
            0 <= a,
    ;
    assert(0 <= 3 * e * e * a) by (nonlinear_arith)
        requires
            0 <= e,
            0 <= a,
    ;
    assert(0 <= 3 * e * a * a) by (nonlinear_arith)
        requires
            0 <= e,
            0 <= a,
    ;
}

/// Evaluates one coordinate of a segment at `a / b`.
fn bezier_coord(p0: i32, c1: i64, c2: i64, p3: i32, a: i128, b: i128) -> (r: i128)
    requires
        0 <= a <= b <= 0xffff,
    ensures
        r == bezier(p0 as int, c1 as int, c2 as int, p3 as int, a as int, b as int),
{
    proof {
        lemma_weight_bounds(a as int, b as int);
    }
    let e = b - a;
    let w0 = e * e * e;
    let w1 = 3 * e * e * a;
    let w2 = 3 * e * a * a;
    let w3 = a * a * a;
    let s0 = 3000 * (p0 as i128);
    let s3 = 3000 * (p3 as i128);
    proof {
        let wm = 0x3_0000_0000_0000int;
        let cm = 0x8000_0000_0000_0000int;
        lemma_mul_range(w0 as int, s0 as int, wm, cm);
        lemma_mul_range(w1 as int, c1 as int, wm, cm);
        lemma_mul_range(w2 as int, c2 as int, wm, cm);
        lemma_mul_range(w3 as int, s3 as int, wm, cm);
    }
    w0 * s0 + w1 * (c1 as i128) + w2 * (c2 as i128) + w3 * s3
}

/// Draws `curve` as a line strip through `sample_count` evenly spaced
/// positions of its parameter, taken over all segments together: the
/// first position is the start of the curve and the last its end.
pub fn draw_curve(curve: &Curve, sample_count: u16) -> (r: Polyline)
    ensures
        r.color == curve.color,
        r.den == CONTROL_DEN * steps_of(sample_count as int) * steps_of(sample_count as int)
            * steps_of(sample_count as int),
        r.points@.len() == if curve.segments@.len() == 0 {
            0
        } else {
            sample_count as int
        },
        forall|k: int|
            0 <= k < r.points@.len() ==> at(
                #[trigger] r.points@[k],
                rendered(curve.segments@, sample_count as int, k),
            ),
        r.points@.len() >= 1 ==> {
            let q = curve.segments@[0];
            r.points@[0].x == r.den * q.p0.x && r.points@[0].y == r.den * q.p0.y
        },
        r.points@.len() >= 2 ==> {
            let q = curve.segments@.last();
            r.points@.last().x == r.den * q.p3.x && r.points@.last().y == r.den * q.p3.y
        },
{
    let ghost segs = curve.segments@;
    let s = curve.segments.len();
    let b: u64 = if sample_count >= 2 {
        sample_count as u64 - 1
    } else {
        1
    };
    let bw = b as i128;
    proof {
        assert(0 <= bw * bw * bw <= 0x1_0000_0000_0000) by (nonlinear_arith)
            requires
                1 <= bw <= 0xffff,
        ;
    }
    proof {
        assert(0 <= bw * bw <= 0x1_0000_0000) by (nonlinear_arith)
            requires
                1 <= bw <= 0xffff,
        ;
    }
    let den = CONTROL_DEN as i128 * (bw * bw * bw);
    assert(den == CONTROL_DEN * bw * bw * bw) by (nonlinear_arith)
        requires
            den == CONTROL_DEN * (bw * bw * bw),
    ;
    let mut points: Vec<PolylinePoint> = Vec::new();
    if s == 0 {
        return Polyline { points, den, color: curve.color };
    }
    let n = sample_count as u64;
    let mut k: u64 = 0;
    while k < n
        invariant
            s == segs.len(),
            s >= 1,
            segs == curve.segments@,
            b == steps_of(n as int),
            bw == b,
            n == sample_count,
            k <= n,
            points@.len() == k,
            forall|j: int|
                0 <= j < k ==> at(#[trigger] points@[j], rendered(segs, n as int, j)),
        decreases n - k,
    {
        proof {
            assert(0 <= (k as int) * (s as int) <= 0xffff * 0xffff_ffff_ffff_ffff) by (nonlinear_arith)
                requires
                    0 <= k < 0xffff,
                    0 <= s <= 0xffff_ffff_ffff_ffff,
            ;
        }
        let u = (k as u128) * (s as u128);
        let q = u / (b as u128);
        let i: usize = if q < s as u128 {
            q as usize
        } else {
            s - 1
        };
        proof {
            let (ui, qi, bi, ki, si) = (u as int, q as int, b as int, k as int, s as int);
            assert(ui == ki * si);
            assert(i == segment_of(ki, si, bi));
            if qi < si {
                assert(qi * bi <= ui && ui - qi * bi < bi) by (nonlinear_arith)
                    requires
                        qi == ui / bi,
                        bi >= 1,
                        ui >= 0,
                ;
            } else {
                assert(ki >= bi) by (nonlinear_arith)
                    requires
                        qi == ui / bi,
                        bi >= 1,
                        ui == ki * si,
                        qi >= si,
                        si >= 1,
                ;
                assert(ki == bi);
                assert(ui - (si - 1) * bi == bi) by (nonlinear_arith)
                    requires
                        ui == ki * si,
                        ki == bi,
                ;
            }
        }
        let a = u - (i as u128) * (b as u128);
        assert(0 <= a <= b <= 0xffff);
        let quad = curve.segments[i];
        let pt = PolylinePoint {
            x: bezier_coord(quad.p0.x, quad.c1.x, quad.c2.x, quad.p3.x, a as i128, bw),
            y: bezier_coord(quad.p0.y, quad.c1.y, quad.c2.y, quad.p3.y, a as i128, bw),
        };
        points.push(pt);
        k = k + 1;
    }
    proof {
        lemma_curve_ends(segs, n as int, den as int);
    }
    Polyline { points, den, color: curve.color }
}

proof fn lemma_curve_ends(segs: Seq<ControlQuad>, n: int, den: int)
    requires
        segs.len() >= 1,
        0 <= n <= 0xffff,
        den == 3000 * steps_of(n) * steps_of(n) * steps_of(n),
    ensures
        n >= 1 ==> rendered(segs, n, 0) == (den * segs[0].p0.x, den * segs[0].p0.y),
        n >= 2 ==> rendered(segs, n, n - 1) == (den * segs.last().p3.x, den * segs.last().p3.y),
{
    let b = steps_of(n);
    let s = segs.len() as int;
    assert(weight0(0, b) == b * b * b && weight1(0, b) == 0 && weight2(0, b) == 0 && weight3(0, b)
        == 0) by (nonlinear_arith);
    assert(weight0(b, b) == 0 && weight1(b, b) == 0 && weight2(b, b) == 0 && weight3(b, b) == b
        * b * b) by (nonlinear_arith);
    assert(forall|p: int| #![trigger den * p] b * b * b * (3000 * p) == den * p) by {
        assert forall|p: int| #![trigger den * p] b * b * b * (3000 * p) == den * p by {
            assert(b * b * b * (3000 * p) == den * p) by (nonlinear_arith)
                requires
                    den == 3000 * b * b * b,
            ;
        }
    }
    assert((0 * s) / b == 0 && 0 * s - 0 * b == 0) by (nonlinear_arith)
        requires
            b >= 1,
    ;
    assert(segment_of(0, s, b) == 0);
    assert(local_param(0, s, b) == 0);
    let q0 = segs[0];
    assert(forall|c1: int, c2: int, p0: int, p3: int|
        #![trigger bezier(p0, c1, c2, p3, 0, b)]
        bezier(p0, c1, c2, p3, 0, b) == weight0(0, b) * (3000 * p0)) by {
        assert forall|c1: int, c2: int, p0: int, p3: int|
            #![trigger bezier(p0, c1, c2, p3, 0, b)]
            bezier(p0, c1, c2, p3, 0, b) == weight0(0, b) * (3000 * p0) by {
            assert(0 * c1 == 0 && 0 * c2 == 0 && 0 * (3000 * p3) == 0) by (nonlinear_arith);
        }
    }
    assert(den * q0.p0.x == b * b * b * (3000 * q0.p0.x));
    assert(den * q0.p0.y == b * b * b * (3000 * q0.p0.y));
    if n >= 2 {
        lemma_div_multiples_vanish(s, b);
        assert((n - 1) * s == b * s);
        assert(b * s - (s - 1) * b == b) by (nonlinear_arith);
        assert(segment_of(n - 1, s, b) == s - 1);
        assert(local_param(n - 1, s, b) == b);
        let ql = segs[s - 1];
        assert(forall|c1: int, c2: int, p0: int, p3: int|
            #![trigger bezier(p0, c1, c2, p3, b, b)]
            bezier(p0, c1, c2, p3, b, b) == weight3(b, b) * (3000 * p3)) by {
            assert forall|c1: int, c2: int, p0: int, p3: int|
                #![trigger bezier(p0, c1, c2, p3, b, b)]
                bezier(p0, c1, c2, p3, b, b) == weight3(b, b) * (3000 * p3) by {
                assert(0 * c1 == 0 && 0 * c2 == 0 && 0 * (3000 * p0) == 0) by (nonlinear_arith);
            }
        }
        assert(den * ql.p3.x == b * b * b * (3000 * ql.p3.x));
        assert(den * ql.p3.y == b * b * b * (3000 * ql.p3.y));
    }
}

/// A curve whose segments all lie on the line `y = x` is drawn on it.
pub proof fn lemma_diagonal_polyline(segs: Seq<ControlQuad>, n: int, k: int)
    requires
        segs.len() >= 1,
        forall|i: int| 0 <= i < segs.len() ==> on_diagonal(#[trigger] segs[i]),
        0 <= k < n,
    ensures
        rendered(segs, n, k).0 == rendered(segs, n, k).1,
{
    let b = steps_of(n);
    let s = segs.len() as int;
    assert(0 <= (k * s) / b) by (nonlinear_arith)
        requires
            k >= 0,
            s >= 1,
            b >= 1,
    ;
    assert(on_diagonal(segs[segment_of(k, s, b)]));
}

/// Fitted without start tension through evenly spaced points of `y = x`,
/// the curve is drawn exactly on that line.
pub proof fn lemma_linear_input_drawn_on_line(
    segs: Seq<ControlQuad>,
    pts: Seq<Point2>,
    tb: int,
    n: int,
    k: int,
)
    requires
        evenly_spaced_identity(pts),
        fits(segs, pts, 0, tb),
        0 <= k < n,
    ensures
        rendered(segs, n, k).0 == rendered(segs, n, k).1,
{
    lemma_linear_input(segs, pts, 0, tb);
    lemma_diagonal_polyline(segs, n, k);
}

} // verus!
