//! Geometric core of a Monte-Carlo path tracer: an axis-aligned bounding-box
//! type, exact ray/triangle and ray/plane intersection tests, and a bounding
//! volume hierarchy (BVH) built by recursive median splitting and queried by
//! recursive nearest-hit traversal.
//!
//! All geometry is carried in exact arithmetic: scene coordinates are
//! fixed-point integers (the caller chooses the scale and quantizes), and ray
//! parameters, barycentric coordinates and hit positions are rationals held as
//! integer numerator/denominator pairs.  Every query therefore has one
//! mathematically defined answer, which the contracts state in full.

pub mod bvh;
pub mod laws;
pub mod rat;
pub mod scene;
pub mod vector;
