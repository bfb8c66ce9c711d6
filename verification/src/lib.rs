//! An exact ray-intersection engine: rays against a small algebra of
//! geometric primitives (planes, balls) composed by affine transforms,
//! half-space clips and boolean combinators, plus a virtual-trackball
//! component that maps a pair of picking rays to a rotation of a sphere.
//!
//! All geometry is computed exactly. Coordinates are rational numbers
//! backed by arbitrary-precision integers, and the irrational quantities
//! that arise from ray/sphere intersection are carried symbolically as
//! quadratic radicals `a + b*sqrt(k)`. Every decision the engine makes
//! (hit or miss, ordering of hits, clipping) is therefore exact; only the
//! presentation of a result as machine floating point is left to callers.

pub mod bigint;
pub mod rat;
pub mod vec3;
pub mod mat;
pub mod radical;
pub mod raycast;
pub mod model;
pub mod trackball;
pub mod cli;
