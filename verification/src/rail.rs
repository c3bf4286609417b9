//! A rail: one curve plus its cached tessellation, kept consistent.
//!
//! The cache invariant is the heart of the editing protocol: every vertex of
//! the cached polyline is exactly the curve's evaluation at its sample
//! parameter, and the only mutation entry point re-tessellates before it
//! returns, so no reader ever observes a stale or partial cache.

use vstd::prelude::*;

use crate::curve::{
    is_evaluation, point_in_world, points_in_world, Curve, CurveKind, Param, Point, EVAL_LIMIT,
    MIN_CONTROL_POINTS,
};
use crate::error::CoreError;

verus! {

/// Fixed resolution of a rail's cached polyline.
pub const RAIL_VERTICES: usize = 100;

/// An editable curve entity: the curve it renders and traverses, and the
/// cached polyline the renderer reads. The fields are private: curve shape
/// changes only through `set_control_point`, which restores the cache.
#[derive(Debug)]
pub struct Rail {
    curve: Curve,
    tessellation: Vec<Point>,
}

impl Rail {
    /// The curve's basis kind.
    pub closed spec fn kind(&self) -> CurveKind {
        self.curve.kind
    }

    /// The curve's current control polygon.
    pub closed spec fn control_points(&self) -> Seq<Point> {
        self.curve.control_points@
    }

    /// The cached polyline.
    pub closed spec fn vertices_seq(&self) -> Seq<Point> {
        self.tessellation@
    }

    /// The cache is exactly a fresh tessellation of the current curve:
    /// `RAIL_VERTICES` points, the `i`-th being the evaluation at
    /// `i / (RAIL_VERTICES - 1)`.
    pub open spec fn tessellation_fresh(&self) -> bool {
        &&& self.vertices_seq().len() == RAIL_VERTICES
        &&& forall|i: int|
            0 <= i < RAIL_VERTICES ==> is_evaluation(
                self.kind(),
                self.control_points(),
                i,
                RAIL_VERTICES - 1,
                #[trigger] self.vertices_seq()[i],
            )
    }

    pub open spec fn wf(&self) -> bool {
        &&& self.control_points().len() >= MIN_CONTROL_POINTS
        &&& points_in_world(self.control_points())
        &&& self.tessellation_fresh()
    }

    /// Builds the curve and tessellates it once. Fails exactly when the
    /// curve build does.
    pub fn new(kind: CurveKind, control_points: Vec<Point>) -> (r: Result<Rail, CoreError>)
        requires
            points_in_world(control_points@),
        ensures
            control_points@.len() >= MIN_CONTROL_POINTS ==> (r is Ok && r->Ok_0.wf()
                && r->Ok_0.kind() == kind && r->Ok_0.control_points() == control_points@),
            control_points@.len() < MIN_CONTROL_POINTS ==> (r is Err && r->Err_0
                == CoreError::InvalidControlPoints),
    {
        let curve = match Curve::build(kind, control_points) {
            Ok(c) => c,
            Err(e) => {
                return Err(e);
            },
        };
        let tessellation = match curve.tessellate(RAIL_VERTICES) {
            Ok(v) => v,
            Err(e) => {
                return Err(e);
            },
        };
        Ok(Rail { curve, tessellation })
    }

    /// The only mutation entry point for curve shape: replaces one control
    /// point, rebuilds the tessellation before returning. An out-of-range
    /// index is a local no-op reported as `IndexOutOfRange`: the rail is
    /// left untouched, bit for bit.
    pub fn set_control_point(&mut self, index: usize, position: Point) -> (r: Result<
        (),
        CoreError,
    >)
        requires
            old(self).wf(),
            point_in_world(position),
        ensures
            index < old(self).control_points().len() ==> (r is Ok && final(self).wf()
                && final(self).kind() == old(self).kind()
                && final(self).control_points()
                    == old(self).control_points().update(index as int, position)),
            index >= old(self).control_points().len() ==> (r is Err && r->Err_0
                == CoreError::IndexOutOfRange && *final(self) == *old(self)),
    {
        if index >= self.curve.control_points.len() {
            return Err(CoreError::IndexOutOfRange);
        }
        self.curve.control_points[index] = position;
        let tessellation = match self.curve.tessellate(RAIL_VERTICES) {
            Ok(v) => v,
            Err(e) => {
                return Err(e);
            },
        };
        self.tessellation = tessellation;
        Ok(())
    }

    /// Samples the curve at `t`, rejecting a parameter outside `[0, 1]`
    /// with `OutOfRangeParameter` instead of evaluating it.
    pub fn sample(&self, t: &Param) -> (r: Result<Point, CoreError>)
        requires
            self.wf(),
            t.wf(),
        ensures
            t.in_range() ==> (r is Ok && is_evaluation(
                self.kind(),
                self.control_points(),
                t.num as int,
                t.den as int,
                r->Ok_0,
            ) && -(EVAL_LIMIT as int) <= r->Ok_0.x as int <= EVAL_LIMIT as int && -(
            EVAL_LIMIT as int) <= r->Ok_0.y as int <= EVAL_LIMIT as int),
            !t.in_range() ==> (r is Err && r->Err_0 == CoreError::OutOfRangeParameter),
    {
        if t.num > t.den {
            return Err(CoreError::OutOfRangeParameter);
        }
        Ok(self.curve.evaluate(t))
    }

    /// Read-only view of the cached polyline, for the rendering
    /// collaborator. Never mutated externally.
    pub fn vertices(&self) -> (r: &Vec<Point>)
        ensures
            r@ == self.vertices_seq(),
    {
        &self.tessellation
    }

    pub fn control_point_count(&self) -> (n: usize)
        ensures
            n == self.control_points().len(),
    {
        self.curve.control_points.len()
    }

    pub fn control_point(&self, index: usize) -> (p: Point)
        requires
            index < self.control_points().len(),
        ensures
            p == self.control_points()[index as int],
    {
        self.curve.control_points[index]
    }
}

/// Law: a well-formed rail's cache is never stale. Whatever sequence of
/// `set_control_point` calls produced the rail (each of which ends in a
/// well-formed rail), its stored polyline equals a fresh tessellation of
/// its current curve at the rail's resolution.
pub proof fn lemma_tessellation_never_stale(rail: Rail)
    requires
        rail.wf(),
    ensures
        rail.vertices_seq().len() == RAIL_VERTICES,
        forall|i: int|
            0 <= i < RAIL_VERTICES ==> is_evaluation(
                rail.kind(),
                rail.control_points(),
                i,
                RAIL_VERTICES - 1,
                #[trigger] rail.vertices_seq()[i],
            ),
{
}

} // verus!
