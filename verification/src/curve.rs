//! The curve engine: cubic Bezier and cubic uniform B-spline curves over
//! integer control points, evaluated exactly at rational parameters.
//!
//! A parameter is a fraction `num / den` in `[0, 1]`. Evaluating either
//! basis at such a parameter gives a point whose coordinates are rationals
//! with denominator `den^3` (Bezier) or `6 * den^3` (B-spline); the engine
//! computes the numerators exactly in 128-bit arithmetic and returns the
//! quotient truncated toward zero. The contracts pin the result down to
//! that exact quotient.

use vstd::prelude::*;

use crate::error::CoreError;

verus! {

/// Largest magnitude a control-point coordinate (or a rail placement
/// offset) may have. Keeps every intermediate product of the cubic basis
/// evaluation inside 128 bits.
pub const COORD_LIMIT: i64 = 1_000_000;

/// Largest denominator a curve parameter may have.
pub const MAX_DENOMINATOR: u64 = 1_000_000;

/// Largest sample count a tessellation may request (its step denominator
/// is `n - 1`, which must not exceed `MAX_DENOMINATOR`).
pub const MAX_SAMPLES: usize = 1_000_001;

/// Both supported kinds are single cubic segments over four control points.
pub const MIN_CONTROL_POINTS: usize = 4;

/// Largest coordinate magnitude an evaluation can return: the weighted
/// numerator is at most `25_000_000` times the denominator it is divided by.
pub const EVAL_LIMIT: i64 = 25_000_000;

/// A 2D point with exact integer coordinates.
#[derive(Clone, Copy, Debug, PartialEq, Eq, Structural)]
pub struct Point {
    pub x: i64,
    pub y: i64,
}

/// The mathematical basis used to interpolate the control points.
#[derive(Clone, Copy, Debug, PartialEq, Eq, Structural)]
pub enum CurveKind {
    CubicBezier,
    CubicBSpline,
}

/// A curve parameter: the rational `num / den`. It lies in `[0, 1]`
/// exactly when `num <= den`.
#[derive(Clone, Copy, Debug, PartialEq, Eq, Structural)]
pub struct Param {
    pub num: u64,
    pub den: u64,
}

/// An immutable-per-version parametric curve: a kind and its ordered
/// control polygon. Evaluation uses the first cubic segment (the first
/// four control points).
#[derive(Debug)]
pub struct Curve {
    pub kind: CurveKind,
    pub control_points: Vec<Point>,
}

pub open spec fn coord_in_world(c: int) -> bool {
    -(COORD_LIMIT as int) <= c <= COORD_LIMIT as int
}

pub open spec fn point_in_world(p: Point) -> bool {
    coord_in_world(p.x as int) && coord_in_world(p.y as int)
}

pub open spec fn points_in_world(s: Seq<Point>) -> bool {
    forall|i: int| 0 <= i < s.len() ==> point_in_world(#[trigger] s[i])
}

impl Param {
    /// The denominator is positive and small enough for exact evaluation.
    pub open spec fn wf(&self) -> bool {
        1 <= self.den <= MAX_DENOMINATOR
    }

    /// The parameter lies in `[0, 1]`.
    pub open spec fn in_range(&self) -> bool {
        self.num <= self.den
    }
}

/// Integer division truncated toward zero, the rounding the engine applies
/// to the exact rational coordinate. Exact quotients are unaffected by it.
pub open spec fn div_trunc(n: int, d: int) -> int
    recommends
        1 <= d,
{
    if n >= 0 {
        n / d
    } else {
        -((-n) / d)
    }
}

/// Numerator of a cubic Bezier coordinate at `a / b`, over denominator
/// `b^3`: the Bernstein weights `(b-a)^3, 3(b-a)^2 a, 3(b-a) a^2, a^3`.
pub open spec fn bezier_numerator(c0: int, c1: int, c2: int, c3: int, a: int, b: int) -> int {
    c0 * ((b - a) * (b - a) * (b - a)) + c1 * (3 * (b - a) * (b - a) * a) + c2 * (3 * (b - a) * a
        * a) + c3 * (a * a * a)
}

/// Numerator of a cubic uniform B-spline coordinate at `a / b`, over
/// denominator `6 * b^3`: the standard basis `(1-t)^3, 3t^3 - 6t^2 + 4,
/// -3t^3 + 3t^2 + 3t + 1, t^3` cleared of its fractions.
pub open spec fn bspline_numerator(c0: int, c1: int, c2: int, c3: int, a: int, b: int) -> int {
    c0 * ((b - a) * (b - a) * (b - a)) + c1 * (3 * (a * a * a) - 6 * (a * a * b) + 4 * (b * b * b))
        + c2 * (3 * (a * a * b) + 3 * (a * b * b) + (b * b * b) - 3 * (a * a * a)) + c3 * (a * a
        * a)
}

pub open spec fn curve_numerator(
    kind: CurveKind,
    c0: int,
    c1: int,
    c2: int,
    c3: int,
    a: int,
    b: int,
) -> int {
    match kind {
        CurveKind::CubicBezier => bezier_numerator(c0, c1, c2, c3, a, b),
        CurveKind::CubicBSpline => bspline_numerator(c0, c1, c2, c3, a, b),
    }
}

pub open spec fn curve_denominator(kind: CurveKind, b: int) -> int {
    match kind {
        CurveKind::CubicBezier => b * b * b,
        CurveKind::CubicBSpline => 6 * (b * b * b),
    }
}

/// The exact evaluated coordinate: the cleared numerator over the cleared
/// denominator, truncated toward zero.
pub open spec fn eval_coord(
    kind: CurveKind,
    c0: int,
    c1: int,
    c2: int,
    c3: int,
    a: int,
    b: int,
) -> int {
    div_trunc(curve_numerator(kind, c0, c1, c2, c3, a, b), curve_denominator(kind, b))
}

/// `p` is the evaluation of the curve `(kind, pts)` at the parameter `a / b`.
pub open spec fn is_evaluation(kind: CurveKind, pts: Seq<Point>, a: int, b: int, p: Point) -> bool {
    &&& p.x as int == eval_coord(
        kind,
        pts[0].x as int,
        pts[1].x as int,
        pts[2].x as int,
        pts[3].x as int,
        a,
        b,
    )
    &&& p.y as int == eval_coord(
        kind,
        pts[0].y as int,
        pts[1].y as int,
        pts[2].y as int,
        pts[3].y as int,
        a,
        b,
    )
}

/// `|x * y| <= mx * my` whenever `|x| <= mx` and `|y| <= my`.
proof fn lemma_mul_bound(x: int, y: int, mx: int, my: int)
    by (nonlinear_arith)
    requires
        -mx <= x <= mx,
        -my <= y <= my,
    ensures
        -(mx * my) <= x * y <= mx * my,
{
}

/// Bounds on every monomial of the two cubic bases at `a / b`, both in
/// absolute terms (so 128-bit arithmetic cannot overflow) and relative to
/// `b^3` (so the final quotient is small).
proof fn lemma_monomial_bounds(a: int, b: int)
    by (nonlinear_arith)
    requires
        0 <= a <= b,
        1 <= b <= MAX_DENOMINATOR as int,
    ensures
        0 <= (b - a) * (b - a) <= 1_000_000_000_000,
        0 <= 3 * (b - a) * (b - a) <= 3_000_000_000_000,
        0 <= 3 * (b - a) * a <= 3_000_000_000_000,
        0 <= a * a <= 1_000_000_000_000,
        0 <= a * b <= 1_000_000_000_000,
        0 <= b * b <= 1_000_000_000_000,
        0 <= (b - a) * (b - a) * (b - a) <= b * b * b,
        0 <= 3 * (b - a) * (b - a) * a <= 3 * (b * b * b),
        0 <= 3 * (b - a) * a * a <= 3 * (b * b * b),
        0 <= a * a * a <= b * b * b,
        0 <= a * a * b <= b * b * b,
        0 <= a * b * b <= b * b * b,
        1 <= b * b * b <= 1_000_000_000_000_000_000,
{
}

/// `|div_trunc(n, d)| <= c` whenever `|n| <= c * m` and `m <= d`.
proof fn lemma_div_trunc_bound(n: int, d: int, c: int, m: int)
    requires
        -(c * m) <= n <= c * m,
        1 <= m <= d,
        0 <= c,
    ensures
        -c <= div_trunc(n, d) <= c,
{
    vstd::arithmetic::div_mod::lemma_div_by_multiple(c, m);
    assert((c * m) / m == c);
    if n >= 0 {
        vstd::arithmetic::div_mod::lemma_div_pos_is_pos(n, d);
        vstd::arithmetic::div_mod::lemma_div_is_ordered(n, c * m, d);
        vstd::arithmetic::div_mod::lemma_div_is_ordered_by_denominator(c * m, m, d);
    } else {
        vstd::arithmetic::div_mod::lemma_div_pos_is_pos(-n, d);
        vstd::arithmetic::div_mod::lemma_div_is_ordered(-n, c * m, d);
        vstd::arithmetic::div_mod::lemma_div_is_ordered_by_denominator(c * m, m, d);
    }
}

/// An exact multiple divides exactly: `div_trunc(c * m, m) == c`.
pub proof fn lemma_div_trunc_multiple(c: int, m: int)
    requires
        1 <= m,
    ensures
        div_trunc(c * m, m) == c,
{
    if c >= 0 {
        vstd::arithmetic::mul::lemma_mul_nonnegative(c, m);
        vstd::arithmetic::div_mod::lemma_div_by_multiple(c, m);
    } else {
        vstd::arithmetic::mul::lemma_mul_nonnegative(-c, m);
        vstd::arithmetic::mul::lemma_mul_unary_negation(c, m);
        vstd::arithmetic::div_mod::lemma_div_by_multiple(-c, m);
        assert(-(c * m) == (-c) * m);
        assert(((-c) * m) / m == -c);
    }
}

/// A common positive factor of numerator and denominator cancels:
/// `div_trunc(s * m, k * m) == div_trunc(s, k)`.
pub proof fn lemma_div_trunc_common_factor(s: int, k: int, m: int)
    requires
        1 <= k,
        1 <= m,
    ensures
        div_trunc(s * m, k * m) == div_trunc(s, k),
{
    vstd::arithmetic::mul::lemma_mul_strictly_positive(k, m);
    vstd::arithmetic::mul::lemma_mul_is_commutative(s, m);
    vstd::arithmetic::mul::lemma_mul_is_commutative(k, m);
    if s >= 0 {
        vstd::arithmetic::mul::lemma_mul_nonnegative(s, m);
        vstd::arithmetic::div_mod::lemma_div_multiples_vanish_quotient(m, s, k);
        assert(s / k == (m * s) / (m * k));
    } else {
        vstd::arithmetic::mul::lemma_mul_nonnegative(-s, m);
        vstd::arithmetic::mul::lemma_mul_unary_negation(s, m);
        vstd::arithmetic::mul::lemma_mul_is_commutative(-s, m);
        vstd::arithmetic::div_mod::lemma_div_multiples_vanish_quotient(m, -s, k);
        assert((-s) / k == (m * (-s)) / (m * k));
    }
}

/// 128-bit division truncated toward zero, via unsigned division on the
/// magnitude.
fn div_trunc_i128(n: i128, d: i128) -> (q: i128)
    requires
        1 <= d,
        i128::MIN < n,
    ensures
        q as int == div_trunc(n as int, d as int),
{
    if n >= 0 {
        let m: u128 = n as u128;
        let q: u128 = m / (d as u128);
        proof {
            vstd::arithmetic::div_mod::lemma_div_nonincreasing(m as int, d as int);
        }
        q as i128
    } else {
        let m: u128 = (-n) as u128;
        let q: u128 = m / (d as u128);
        proof {
            vstd::arithmetic::div_mod::lemma_div_nonincreasing(m as int, d as int);
        }
        -(q as i128)
    }
}

/// One coordinate of a curve evaluation: computes the cleared numerator and
/// denominator of the chosen basis at `a / b` in 128-bit arithmetic and
/// truncates the exact quotient toward zero.
fn evaluate_coordinate(kind: CurveKind, c0: i64, c1: i64, c2: i64, c3: i64, a: u64, b: u64) -> (r:
    i64)
    requires
        a <= b,
        1 <= b <= MAX_DENOMINATOR,
        coord_in_world(c0 as int),
        coord_in_world(c1 as int),
        coord_in_world(c2 as int),
        coord_in_world(c3 as int),
    ensures
        r as int == eval_coord(kind, c0 as int, c1 as int, c2 as int, c3 as int, a as int, b as int),
        -(EVAL_LIMIT as int) <= r as int <= EVAL_LIMIT as int,
{
    let aa: i128 = a as i128;
    let bb: i128 = b as i128;
    proof {
        lemma_monomial_bounds(aa as int, bb as int);
    }
    let d: i128 = bb - aa;
    let b3: i128 = bb * bb * bb;
    let c0w: i128 = c0 as i128;
    let c1w: i128 = c1 as i128;
    let c2w: i128 = c2 as i128;
    let c3w: i128 = c3 as i128;
    let ghost bcube: int = (bb as int) * (bb as int) * (bb as int);
    let (num, den): (i128, i128) = match kind {
        CurveKind::CubicBezier => {
            let w0: i128 = d * d * d;
            let w1: i128 = 3 * d * d * aa;
            let w2: i128 = 3 * d * aa * aa;
            let w3: i128 = aa * aa * aa;
            proof {
                lemma_mul_bound(c0w as int, w0 as int, 1_000_000, bcube);
                lemma_mul_bound(c1w as int, w1 as int, 1_000_000, 3 * bcube);
                lemma_mul_bound(c2w as int, w2 as int, 1_000_000, 3 * bcube);
                lemma_mul_bound(c3w as int, w3 as int, 1_000_000, bcube);
            }
            (c0w * w0 + c1w * w1 + c2w * w2 + c3w * w3, b3)
        },
        CurveKind::CubicBSpline => {
            let a3: i128 = aa * aa * aa;
            let a2b: i128 = aa * aa * bb;
            let ab2: i128 = aa * bb * bb;
            let w0: i128 = d * d * d;
            let w1: i128 = 3 * a3 - 6 * a2b + 4 * b3;
            let w2: i128 = 3 * a2b + 3 * ab2 + b3 - 3 * a3;
            let w3: i128 = a3;
            proof {
                lemma_mul_bound(c0w as int, w0 as int, 1_000_000, bcube);
                lemma_mul_bound(c1w as int, w1 as int, 1_000_000, 13 * bcube);
                lemma_mul_bound(c2w as int, w2 as int, 1_000_000, 10 * bcube);
                lemma_mul_bound(c3w as int, w3 as int, 1_000_000, bcube);
            }
            (c0w * w0 + c1w * w1 + c2w * w2 + c3w * w3, 6 * b3)
        },
    };
    proof {
        lemma_div_trunc_bound(num as int, den as int, EVAL_LIMIT as int, bcube);
    }
    let q: i128 = div_trunc_i128(num, den);
    q as i64
}

/// Law: an evaluation at parameter `0 / b` does not depend on `b`. For a
/// Bezier curve it is exactly the first control point; for a B-spline it is
/// the standard segment start `(p0 + 4 p1 + p2) / 6`, truncated toward zero.
pub proof fn lemma_evaluate_at_start(kind: CurveKind, pts: Seq<Point>, b: int, p: Point)
    requires
        1 <= b,
        is_evaluation(kind, pts, 0, b, p),
    ensures
        kind == CurveKind::CubicBezier ==> p == pts[0],
        kind == CurveKind::CubicBSpline ==> p.x as int == div_trunc(
            pts[0].x as int + 4 * (pts[1].x as int) + pts[2].x as int,
            6,
        ) && p.y as int == div_trunc(
            pts[0].y as int + 4 * (pts[1].y as int) + pts[2].y as int,
            6,
        ),
{
    assert(1 <= b * b * b) by (nonlinear_arith)
        requires
            1 <= b,
    ;
    let m = b * b * b;
    match kind {
        CurveKind::CubicBezier => {
            assert forall|c0: int, c1: int, c2: int, c3: int|
                bezier_numerator(c0, c1, c2, c3, 0, b) == c0 * m by {
                assert(c0 * ((b - 0) * (b - 0) * (b - 0)) + c1 * (3 * (b - 0) * (b - 0) * 0) + c2
                    * (3 * (b - 0) * 0 * 0) + c3 * (0 * 0 * 0) == c0 * (b * b * b))
                    by (nonlinear_arith);
            }
            lemma_div_trunc_multiple(pts[0].x as int, m);
            lemma_div_trunc_multiple(pts[0].y as int, m);
        },
        CurveKind::CubicBSpline => {
            assert forall|c0: int, c1: int, c2: int, c3: int|
                bspline_numerator(c0, c1, c2, c3, 0, b) == (c0 + 4 * c1 + c2) * m by {
                assert(c0 * ((b - 0) * (b - 0) * (b - 0)) + c1 * (3 * (0 * 0 * 0) - 6 * (0 * 0 * b)
                    + 4 * (b * b * b)) + c2 * (3 * (0 * 0 * b) + 3 * (0 * b * b) + (b * b * b) - 3
                    * (0 * 0 * 0)) + c3 * (0 * 0 * 0) == (c0 + 4 * c1 + c2) * (b * b * b))
                    by (nonlinear_arith);
            }
            lemma_div_trunc_common_factor(
                pts[0].x as int + 4 * (pts[1].x as int) + pts[2].x as int,
                6,
                m,
            );
            lemma_div_trunc_common_factor(
                pts[0].y as int + 4 * (pts[1].y as int) + pts[2].y as int,
                6,
                m,
            );
        },
    }
}

/// Law: an evaluation at parameter `b / b` (that is, at 1) does not depend
/// on `b`. For a Bezier curve it is exactly the last control point of the
/// segment; for a B-spline it is the standard segment end
/// `(p1 + 4 p2 + p3) / 6`, truncated toward zero.
pub proof fn lemma_evaluate_at_end(kind: CurveKind, pts: Seq<Point>, b: int, p: Point)
    requires
        1 <= b,
        is_evaluation(kind, pts, b, b, p),
    ensures
        kind == CurveKind::CubicBezier ==> p == pts[3],
        kind == CurveKind::CubicBSpline ==> p.x as int == div_trunc(
            pts[1].x as int + 4 * (pts[2].x as int) + pts[3].x as int,
            6,
        ) && p.y as int == div_trunc(
            pts[1].y as int + 4 * (pts[2].y as int) + pts[3].y as int,
            6,
        ),
{
    assert(1 <= b * b * b) by (nonlinear_arith)
        requires
            1 <= b,
    ;
    let m = b * b * b;
    match kind {
        CurveKind::CubicBezier => {
            assert forall|c0: int, c1: int, c2: int, c3: int|
                bezier_numerator(c0, c1, c2, c3, b, b) == c3 * m by {
                assert(c0 * ((b - b) * (b - b) * (b - b)) + c1 * (3 * (b - b) * (b - b) * b) + c2
                    * (3 * (b - b) * b * b) + c3 * (b * b * b) == c3 * (b * b * b))
                    by (nonlinear_arith);
            }
            lemma_div_trunc_multiple(pts[3].x as int, m);
            lemma_div_trunc_multiple(pts[3].y as int, m);
        },
        CurveKind::CubicBSpline => {
            assert forall|c0: int, c1: int, c2: int, c3: int|
                bspline_numerator(c0, c1, c2, c3, b, b) == (c1 + 4 * c2 + c3) * m by {
                assert(c0 * ((b - b) * (b - b) * (b - b)) + c1 * (3 * (b * b * b) - 6 * (b * b * b)
                    + 4 * (b * b * b)) + c2 * (3 * (b * b * b) + 3 * (b * b * b) + (b * b * b) - 3
                    * (b * b * b)) + c3 * (b * b * b) == (c1 + 4 * c2 + c3) * (b * b * b))
                    by (nonlinear_arith);
            }
            lemma_div_trunc_common_factor(
                pts[1].x as int + 4 * (pts[2].x as int) + pts[3].x as int,
                6,
                m,
            );
            lemma_div_trunc_common_factor(
                pts[1].y as int + 4 * (pts[2].y as int) + pts[3].y as int,
                6,
                m,
            );
        },
    }
}

impl Curve {
    /// The control polygon is long enough for one cubic segment and lies
    /// inside the world's coordinate range.
    pub open spec fn wf(&self) -> bool {
        &&& self.control_points@.len() >= MIN_CONTROL_POINTS
        &&& points_in_world(self.control_points@)
    }

    /// Builds a curve from a kind and an ordered control-point list. Fails
    /// with `InvalidControlPoints` exactly when the list is shorter than the
    /// minimum the kind requires; on success the curve holds the list
    /// unchanged.
    pub fn build(kind: CurveKind, control_points: Vec<Point>) -> (r: Result<Curve, CoreError>)
        requires
            points_in_world(control_points@),
        ensures
            control_points@.len() >= MIN_CONTROL_POINTS ==> (r is Ok && r->Ok_0.kind == kind
                && r->Ok_0.control_points@ == control_points@ && r->Ok_0.wf()),
            control_points@.len() < MIN_CONTROL_POINTS ==> (r is Err && r->Err_0
                == CoreError::InvalidControlPoints),
    {
        if control_points.len() < MIN_CONTROL_POINTS {
            Err(CoreError::InvalidControlPoints)
        } else {
            Ok(Curve { kind, control_points })
        }
    }

    /// Evaluates the curve at the parameter `t`, exactly. A parameter
    /// outside `[0, 1]` is a caller bug, excluded by precondition: the
    /// engine never clamps.
    pub fn evaluate(&self, t: &Param) -> (r: Point)
        requires
            self.wf(),
            t.wf(),
            t.in_range(),
        ensures
            is_evaluation(self.kind, self.control_points@, t.num as int, t.den as int, r),
            -(EVAL_LIMIT as int) <= r.x as int <= EVAL_LIMIT as int,
            -(EVAL_LIMIT as int) <= r.y as int <= EVAL_LIMIT as int,
    {
        let p0 = self.control_points[0];
        let p1 = self.control_points[1];
        let p2 = self.control_points[2];
        let p3 = self.control_points[3];
        let x = evaluate_coordinate(self.kind, p0.x, p1.x, p2.x, p3.x, t.num, t.den);
        let y = evaluate_coordinate(self.kind, p0.y, p1.y, p2.y, p3.y, t.num, t.den);
        Point { x, y }
    }

    /// Samples the curve at the `n` parameters `i / (n - 1)`, both endpoints
    /// included. Every returned vertex is exactly the evaluation at its
    /// parameter; fewer than two samples is an error.
    pub fn tessellate(&self, n: usize) -> (r: Result<Vec<Point>, CoreError>)
        requires
            self.wf(),
            n <= MAX_SAMPLES,
        ensures
            n >= 2 ==> (r is Ok && r->Ok_0@.len() == n && forall|i: int|
                0 <= i < n ==> is_evaluation(
                    self.kind,
                    self.control_points@,
                    i,
                    n - 1,
                    #[trigger] r->Ok_0@[i],
                )),
            n < 2 ==> (r is Err && r->Err_0 == CoreError::DegenerateSampleCount),
    {
        if n < 2 {
            return Err(CoreError::DegenerateSampleCount);
        }
        let den: u64 = (n - 1) as u64;
        let mut out: Vec<Point> = Vec::new();
        let mut i: usize = 0;
        while i < n
            invariant
                2 <= n <= MAX_SAMPLES,
                den == n - 1,
                i <= n,
                out@.len() == i,
                self.wf(),
                forall|j: int|
                    0 <= j < i ==> is_evaluation(
                        self.kind,
                        self.control_points@,
                        j,
                        n - 1,
                        #[trigger] out@[j],
                    ),
            decreases n - i,
        {
            let t = Param { num: i as u64, den };
            let p = self.evaluate(&t);
            out.push(p);
            i += 1;
        }
        Ok(out)
    }
}

} // verus!
