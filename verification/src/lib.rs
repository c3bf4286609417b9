//! A small interactive 2D scene editor core: parametric rails (cubic Bezier
//! or cubic B-spline curves) that users reshape by dragging control points,
//! tessellated live into renderable polylines, and traversed back and forth
//! by autonomous agents.
//!
//! All geometry is exact integer arithmetic: 2D points carry `i64`
//! coordinates and curve parameters are rationals `num / den`, so every
//! evaluation result is pinned down exactly by the contracts.

pub mod curve;
pub mod error;
pub mod rail;
pub mod scene;
pub mod traversal;
