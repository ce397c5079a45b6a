//! An offline ray-tracing core over fixed-point coordinates.
//!
//! Every quantity (coordinate, color channel, ray parameter) is a signed
//! 64-bit integer holding the value scaled by `SCALE` (2^16).  All geometry
//! predicates are evaluated in exact integer arithmetic, so the edge-case
//! policies (discriminant sign, barycentric boundary exclusion, slab-test
//! interval comparison) are exact rather than subject to rounding.
use vstd::prelude::*;

pub mod bvh;
pub mod camera;
pub mod fx;
pub mod noise;
pub mod render;
pub mod rgb;
pub mod sample;
pub mod shapes;
pub mod texture;
pub mod vectors;
pub mod vertices;

verus! {

} // verus!
