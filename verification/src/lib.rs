//! A Monte Carlo path tracer core: vector algebra, ray/sphere intersection,
//! material scattering and the radiance integrator.
//!
//! All scalars are fixed-point numbers: an `i64` stands for the real value
//! `v / FX_ONE`. This is the crate's documented precision choice: exact
//! fixed-point arithmetic, truncated toward zero, in place of the
//! single-precision floating point such tracers usually run on. It keeps
//! every operation deterministic and lets each formula be stated exactly
//! in contracts.

use vstd::prelude::*;

pub mod fx;
pub mod integrator;
pub mod laws;
pub mod material;
pub mod objects;
pub mod ray;
pub mod sampling;
pub mod vec3;

pub use fx::FX_ONE;

verus! {

// The numeric envelope: the fixed-width arithmetic of the tracer is proved
// free of overflow for scenes and rays within these bounds (all scaled by
// FX_ONE, so SCENE_MAX is 2048 in real terms). They are forced by the 64-bit
// scalar width, not by the tracing algorithm.
/// Largest magnitude of a sphere center coordinate, sphere radius or ray
/// origin coordinate accepted by intersection tests.
pub const SCENE_MAX: i64 = 2147483648;

/// Largest magnitude of a ray direction component accepted by intersection
/// tests and scattering.
pub const DIR_MAX: i64 = 16777216;

/// Largest magnitude of a surface normal component accepted by scattering.
pub const NORM_MAX: i64 = 4194304;

/// Largest magnitude of a hit point component a sphere intersection can
/// produce within the envelope.
pub const POS_MAX: i64 = 35184372088832;

/// Largest magnitude of the parametric bounds `t_min`/`t_max` accepted by
/// intersection tests.
pub const T_RANGE_MAX: i64 = 1099511627776;

/// The width guard on a cosine handed to the Fresnel approximation: a true
/// cosine lies in [-1, 1]; values beyond this bound can only come from
/// truncation on degenerate inputs and are clamped.
pub const COS_LIMIT: i64 = 4194304;

/// Smallest refractive index the dielectric scattering is verified for
/// (0.125). Forced by the scalar width: entering a medium uses the
/// reciprocal index `1 / n`, whose square scales the refraction
/// discriminant, and an index below this bound would push that product
/// past 63 bits.
pub const RI_MIN: i64 = 131072;

/// Largest refractive index the dielectric scattering is verified for
/// (8.0). Forced by the scalar width: the index multiplies the incidence
/// dot product before the division by the direction's length, and a larger
/// index would push that quotient past 63 bits at the envelope bounds.
pub const RI_MAX: i64 = 8388608;

} // verus!
