//! Random sampling: the one place where the library draws randomness.
//!
//! The library never states anything about the distribution of a drawn
//! value, only its range; every consumer is verified for every value the
//! range admits.

use vstd::prelude::*;

use rand::RngExt;

use crate::fx::FX_ONE;
use crate::vec3::Vec3;

verus! {

#[verifier::external_type_specification]
#[verifier::external_body]
/// The per-thread random number generator of the rand crate, opaque here.
pub struct ExThreadRng(rand::rngs::ThreadRng);

/// Relies on rand's `RngExt::random_range` over `0..n`: a value below `n`.
/// It panics only on an empty range, which `requires` excludes (or, as every
/// `ThreadRng` method, on failure of the operating system's generator).
#[verifier::external_body]
pub(crate) fn rand_below(rng: &mut rand::rngs::ThreadRng, n: u64) -> (r: u64)
    requires
        n >= 1,
    ensures
        r < n,
{
    rng.random_range(0..n)
}

/// One coordinate of a rejection-sampling draw: uniform in `[-1, 1)` in
/// fixed point.
fn random_coord(rng: &mut rand::rngs::ThreadRng) -> (r: i64)
    ensures
        -FX_ONE <= r < FX_ONE,
{
    let u = rand_below(rng, 2 * (FX_ONE as u64));
    (u as i64) - FX_ONE
}

/// Draws a point inside the unit ball by rejection: sample the enclosing
/// cube until the squared length is below one. Termination must be proved
/// here, so the retries are capped at a count whose chance of being reached
/// is far below one in 10^20; the cap falls back to the center.
pub fn random_in_unit_sphere(rng: &mut rand::rngs::ThreadRng) -> (p: Vec3)
    ensures
        p@.in_cube(FX_ONE as int),
        p@.dot_fits(p@),
        p@.len2() < FX_ONE as int,
{
    let mut tries: u32 = 0;
    while tries < 64
        decreases 64 - tries,
    {
        let x = random_coord(rng);
        let y = random_coord(rng);
        let z = random_coord(rng);
        let p = Vec3::new(x, y, z);
        proof {
            crate::fx::lemma_fxm_bound(p@.x, p@.x, FX_ONE as int, FX_ONE as int);
            crate::fx::lemma_fxm_bound(p@.y, p@.y, FX_ONE as int, FX_ONE as int);
            crate::fx::lemma_fxm_bound(p@.z, p@.z, FX_ONE as int, FX_ONE as int);
            crate::fx::lemma_fxm_square_nonneg(p@.x);
            crate::fx::lemma_fxm_square_nonneg(p@.y);
            crate::fx::lemma_fxm_square_nonneg(p@.z);
        }
        let slen = p.squared_length();
        if slen < FX_ONE {
            return p;
        }
        tries = tries + 1;
    }
    let p = Vec3::of(0);
    proof {
        crate::fx::lemma_fxm_bound(0, 0, FX_ONE as int, FX_ONE as int);
    }
    p
}

/// Draws a point inside the unit disk (third component zero) by
/// rejection, with the same retry cap as the ball sampler.
pub fn random_in_unit_disk(rng: &mut rand::rngs::ThreadRng) -> (p: Vec3)
    ensures
        p@.in_cube(FX_ONE as int),
        p@.dot_fits(p@),
        p@.len2() < FX_ONE as int,
        p@.z == 0,
{
    let mut tries: u32 = 0;
    while tries < 64
        decreases 64 - tries,
    {
        let x = random_coord(rng);
        let y = random_coord(rng);
        let p = Vec3::new(x, y, 0);
        proof {
            crate::fx::lemma_fxm_bound(p@.x, p@.x, FX_ONE as int, FX_ONE as int);
            crate::fx::lemma_fxm_bound(p@.y, p@.y, FX_ONE as int, FX_ONE as int);
            crate::fx::lemma_fxm_bound(p@.z, p@.z, FX_ONE as int, FX_ONE as int);
            crate::fx::lemma_fxm_square_nonneg(p@.x);
            crate::fx::lemma_fxm_square_nonneg(p@.y);
            crate::fx::lemma_fxm_square_nonneg(p@.z);
        }
        let slen = p.dot(&p);
        if slen < FX_ONE {
            return p;
        }
        tries = tries + 1;
    }
    let p = Vec3::of(0);
    proof {
        crate::fx::lemma_fxm_bound(0, 0, FX_ONE as int, FX_ONE as int);
    }
    p
}

/// A scalar uniform in `[0, 1)` in fixed point.
pub fn random_unit_scalar(rng: &mut rand::rngs::ThreadRng) -> (r: i64)
    ensures
        0 <= r < FX_ONE,
{
    rand_below(rng, FX_ONE as u64) as i64
}

} // verus!
