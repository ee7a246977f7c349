//! Three-component vectors over fixed-point scalars, used interchangeably
//! as points, directions and RGB colors.
//!
//! Contracts speak of `V3`, the mathematical view of a vector: three
//! unbounded integers combined with the exact truncated fixed-point
//! operations of `fx`.

use vstd::prelude::*;

use crate::fx::{fits_i64, fx_div, fx_mul, fx_sqrt, fxd, fxm, fxsqrt, iabs};

verus! {

/// Mathematical view of a vector: exact integer components.
pub ghost struct V3 {
    pub x: int,
    pub y: int,
    pub z: int,
}

impl V3 {
    /// Componentwise sum.
    pub open spec fn vadd(self, o: V3) -> V3 {
        V3 { x: self.x + o.x, y: self.y + o.y, z: self.z + o.z }
    }

    /// Componentwise difference.
    pub open spec fn vsub(self, o: V3) -> V3 {
        V3 { x: self.x - o.x, y: self.y - o.y, z: self.z - o.z }
    }

    /// Componentwise negation.
    pub open spec fn vneg(self) -> V3 {
        V3 { x: -self.x, y: -self.y, z: -self.z }
    }

    /// Componentwise fixed-point product.
    pub open spec fn vmul(self, o: V3) -> V3 {
        V3 { x: fxm(self.x, o.x), y: fxm(self.y, o.y), z: fxm(self.z, o.z) }
    }

    /// Componentwise fixed-point quotient.
    pub open spec fn vdiv(self, o: V3) -> V3 {
        V3 { x: fxd(self.x, o.x), y: fxd(self.y, o.y), z: fxd(self.z, o.z) }
    }

    /// Fixed-point product with a scalar.
    pub open spec fn vscale(self, k: int) -> V3 {
        V3 { x: fxm(self.x, k), y: fxm(self.y, k), z: fxm(self.z, k) }
    }

    /// Componentwise fixed-point quotient by a scalar.
    pub open spec fn vscale_div(self, k: int) -> V3 {
        V3 { x: fxd(self.x, k), y: fxd(self.y, k), z: fxd(self.z, k) }
    }

    /// A scalar divided by each component.
    pub open spec fn vrecip_scale(self, k: int) -> V3 {
        V3 { x: fxd(k, self.x), y: fxd(k, self.y), z: fxd(k, self.z) }
    }

    /// Fixed-point dot product.
    pub open spec fn vdot(self, o: V3) -> int {
        fxm(self.x, o.x) + fxm(self.y, o.y) + fxm(self.z, o.z)
    }

    /// Fixed-point cross product.
    pub open spec fn vcross(self, o: V3) -> V3 {
        V3 {
            x: fxm(self.y, o.z) - fxm(self.z, o.y),
            y: fxm(self.z, o.x) - fxm(self.x, o.z),
            z: fxm(self.x, o.y) - fxm(self.y, o.x),
        }
    }

    /// Squared length: the dot product with itself.
    pub open spec fn len2(self) -> int {
        self.vdot(self)
    }

    /// Fixed-point length: square root of the squared length.
    pub open spec fn len(self) -> int {
        fxsqrt(self.len2())
    }

    /// The vector divided by its own length.
    pub open spec fn vunit(self) -> V3
        recommends
            self.len() > 0,
    {
        self.vscale_div(self.len())
    }

    /// All components representable as `i64`.
    pub open spec fn fits(self) -> bool {
        fits_i64(self.x) && fits_i64(self.y) && fits_i64(self.z)
    }

    /// All components within magnitude `m`.
    pub open spec fn in_cube(self, m: int) -> bool {
        iabs(self.x) <= m && iabs(self.y) <= m && iabs(self.z) <= m
    }

    /// The intermediate values of a dot product all representable as `i64`.
    pub open spec fn dot_fits(self, o: V3) -> bool {
        fits_i64(fxm(self.x, o.x)) && fits_i64(fxm(self.y, o.y)) && fits_i64(fxm(self.z, o.z))
            && fits_i64(fxm(self.x, o.x) + fxm(self.y, o.y)) && fits_i64(self.vdot(o))
    }

    /// The intermediate values of a cross product all representable as `i64`.
    pub open spec fn cross_fits(self, o: V3) -> bool {
        fits_i64(fxm(self.y, o.z)) && fits_i64(fxm(self.z, o.y)) && fits_i64(fxm(self.z, o.x))
            && fits_i64(fxm(self.x, o.z)) && fits_i64(fxm(self.x, o.y)) && fits_i64(
            fxm(self.y, o.x),
        ) && self.vcross(o).fits()
    }
}

/// A vector of three fixed-point scalars.
#[derive(Clone, Copy, Debug, PartialEq, Eq, Structural)]
pub struct Vec3 {
    pub x: i64,
    pub y: i64,
    pub z: i64,
}

impl View for Vec3 {
    type V = V3;

    open spec fn view(&self) -> V3 {
        V3 { x: self.x as int, y: self.y as int, z: self.z as int }
    }
}

impl Vec3 {
    /// Builds a vector from its three components.
    pub fn new(x: i64, y: i64, z: i64) -> (v: Vec3)
        ensures
            v@ == (V3 { x: x as int, y: y as int, z: z as int }),
    {
        Vec3 { x, y, z }
    }

    /// Builds a vector with the same value in every component.
    pub fn of(v: i64) -> (r: Vec3)
        ensures
            r@ == (V3 { x: v as int, y: v as int, z: v as int }),
    {
        Vec3 { x: v, y: v, z: v }
    }

    /// Applies a scalar function to each component.
    pub fn map<F: Fn(i64) -> i64>(self, f: F) -> (r: Vec3)
        requires
            f.requires((self.x,)),
            f.requires((self.y,)),
            f.requires((self.z,)),
        ensures
            f.ensures((self.x,), r.x),
            f.ensures((self.y,), r.y),
            f.ensures((self.z,), r.z),
    {
        Vec3 { x: f(self.x), y: f(self.y), z: f(self.z) }
    }

    /// First component, read as a coordinate.
    pub fn x(&self) -> (r: i64)
        ensures
            r == self.x,
    {
        self.x
    }

    /// Second component, read as a coordinate.
    pub fn y(&self) -> (r: i64)
        ensures
            r == self.y,
    {
        self.y
    }

    /// Third component, read as a coordinate.
    pub fn z(&self) -> (r: i64)
        ensures
            r == self.z,
    {
        self.z
    }

    /// First component, read as a red channel.
    pub fn r(&self) -> (r: i64)
        ensures
            r == self.x,
    {
        self.x
    }

    /// Second component, read as a green channel.
    pub fn g(&self) -> (r: i64)
        ensures
            r == self.y,
    {
        self.y
    }

    /// Third component, read as a blue channel.
    pub fn b(&self) -> (r: i64)
        ensures
            r == self.z,
    {
        self.z
    }

    /// Componentwise sum.
    pub fn add(&self, o: &Vec3) -> (r: Vec3)
        requires
            self@.vadd(o@).fits(),
        ensures
            r@ == self@.vadd(o@),
    {
        Vec3 { x: self.x + o.x, y: self.y + o.y, z: self.z + o.z }
    }

    /// Componentwise difference.
    pub fn sub(&self, o: &Vec3) -> (r: Vec3)
        requires
            self@.vsub(o@).fits(),
        ensures
            r@ == self@.vsub(o@),
    {
        Vec3 { x: self.x - o.x, y: self.y - o.y, z: self.z - o.z }
    }

    /// Componentwise negation.
    pub fn neg(&self) -> (r: Vec3)
        requires
            self@.vneg().fits(),
        ensures
            r@ == self@.vneg(),
    {
        Vec3 { x: -self.x, y: -self.y, z: -self.z }
    }

    /// Componentwise fixed-point product.
    pub fn mul(&self, o: &Vec3) -> (r: Vec3)
        requires
            self@.vmul(o@).fits(),
        ensures
            r@ == self@.vmul(o@),
    {
        Vec3 {
            x: fx_mul(self.x, o.x),
            y: fx_mul(self.y, o.y),
            z: fx_mul(self.z, o.z),
        }
    }

    /// Componentwise fixed-point quotient.
    pub fn div(&self, o: &Vec3) -> (r: Vec3)
        requires
            o.x != 0 && o.y != 0 && o.z != 0,
            self@.vdiv(o@).fits(),
        ensures
            r@ == self@.vdiv(o@),
    {
        Vec3 {
            x: fx_div(self.x, o.x),
            y: fx_div(self.y, o.y),
            z: fx_div(self.z, o.z),
        }
    }

    /// Fixed-point product with a scalar.
    pub fn scale(&self, k: i64) -> (r: Vec3)
        requires
            self@.vscale(k as int).fits(),
        ensures
            r@ == self@.vscale(k as int),
    {
        Vec3 { x: fx_mul(self.x, k), y: fx_mul(self.y, k), z: fx_mul(self.z, k) }
    }

    /// Componentwise fixed-point quotient by a scalar.
    pub fn scale_div(&self, k: i64) -> (r: Vec3)
        requires
            k != 0,
            self@.vscale_div(k as int).fits(),
        ensures
            r@ == self@.vscale_div(k as int),
    {
        Vec3 { x: fx_div(self.x, k), y: fx_div(self.y, k), z: fx_div(self.z, k) }
    }

    /// A scalar divided by each component.
    pub fn recip_scale(&self, k: i64) -> (r: Vec3)
        requires
            self.x != 0 && self.y != 0 && self.z != 0,
            self@.vrecip_scale(k as int).fits(),
        ensures
            r@ == self@.vrecip_scale(k as int),
    {
        Vec3 { x: fx_div(k, self.x), y: fx_div(k, self.y), z: fx_div(k, self.z) }
    }

    /// Fixed-point dot product.
    pub fn dot(&self, o: &Vec3) -> (r: i64)
        requires
            self@.dot_fits(o@),
        ensures
            r as int == self@.vdot(o@),
    {
        fx_mul(self.x, o.x) + fx_mul(self.y, o.y) + fx_mul(self.z, o.z)
    }

    /// Fixed-point cross product.
    pub fn cross(&self, o: &Vec3) -> (r: Vec3)
        requires
            self@.cross_fits(o@),
        ensures
            r@ == self@.vcross(o@),
    {
        Vec3 {
            x: fx_mul(self.y, o.z) - fx_mul(self.z, o.y),
            y: fx_mul(self.z, o.x) - fx_mul(self.x, o.z),
            z: fx_mul(self.x, o.y) - fx_mul(self.y, o.x),
        }
    }

    /// Squared length; never negative.
    pub fn squared_length(&self) -> (r: i64)
        requires
            self@.dot_fits(self@),
        ensures
            r as int == self@.len2(),
            r >= 0,
    {
        proof {
            crate::fx::lemma_fxm_square_nonneg(self@.x);
            crate::fx::lemma_fxm_square_nonneg(self@.y);
            crate::fx::lemma_fxm_square_nonneg(self@.z);
        }
        self.dot(self)
    }

    /// Fixed-point length.
    pub fn length(&self) -> (r: i64)
        requires
            self@.dot_fits(self@),
        ensures
            r as int == self@.len(),
            r >= 0,
    {
        fx_sqrt(self.squared_length())
    }

    /// The vector divided by its own length.
    pub fn unit_vector(&self) -> (r: Vec3)
        requires
            self@.dot_fits(self@),
            self@.len() > 0,
            self@.vunit().fits(),
        ensures
            r@ == self@.vunit(),
    {
        let l = self.length();
        self.scale_div(l)
    }

    /// Whether every component's magnitude is at most `m`.
    pub fn in_cube_check(&self, m: i64) -> (b: bool)
        requires
            m >= 0,
        ensures
            b == self@.in_cube(m as int),
    {
        -m <= self.x && self.x <= m && -m <= self.y && self.y <= m && -m <= self.z && self.z <= m
    }

    /// Componentwise sum, in place.
    pub fn add_assign(&mut self, o: &Vec3)
        requires
            old(self)@.vadd(o@).fits(),
        ensures
            final(self)@ == old(self)@.vadd(o@),
    {
        self.x = self.x + o.x;
        self.y = self.y + o.y;
        self.z = self.z + o.z;
    }

    /// Componentwise difference, in place.
    pub fn sub_assign(&mut self, o: &Vec3)
        requires
            old(self)@.vsub(o@).fits(),
        ensures
            final(self)@ == old(self)@.vsub(o@),
    {
        self.x = self.x - o.x;
        self.y = self.y - o.y;
        self.z = self.z - o.z;
    }

    /// Fixed-point product with a scalar, in place.
    pub fn scale_assign(&mut self, k: i64)
        requires
            old(self)@.vscale(k as int).fits(),
        ensures
            final(self)@ == old(self)@.vscale(k as int),
    {
        self.x = fx_mul(self.x, k);
        self.y = fx_mul(self.y, k);
        self.z = fx_mul(self.z, k);
    }

    /// Componentwise fixed-point quotient by a scalar, in place.
    pub fn scale_div_assign(&mut self, k: i64)
        requires
            k != 0,
            old(self)@.vscale_div(k as int).fits(),
        ensures
            final(self)@ == old(self)@.vscale_div(k as int),
    {
        self.x = fx_div(self.x, k);
        self.y = fx_div(self.y, k);
        self.z = fx_div(self.z, k);
    }
}

/// Componentwise magnitude bound for a scalar product.
pub proof fn lemma_vscale_bound(v: V3, k: int, mv: int, mk: int)
    requires
        v.in_cube(mv),
        iabs(k) <= mk,
    ensures
        v.vscale(k).in_cube((mv * mk) / (crate::fx::FX_ONE as int)),
{
    crate::fx::lemma_fxm_bound(v.x, k, mv, mk);
    crate::fx::lemma_fxm_bound(v.y, k, mv, mk);
    crate::fx::lemma_fxm_bound(v.z, k, mv, mk);
}

/// Magnitude bound and representability for a dot product of bounded
/// vectors.
pub proof fn lemma_dot_bound(a: V3, b: V3, ma: int, mb: int)
    requires
        a.in_cube(ma),
        b.in_cube(mb),
    ensures
        iabs(a.vdot(b)) <= 3 * ((ma * mb) / (crate::fx::FX_ONE as int)),
        3 * ((ma * mb) / (crate::fx::FX_ONE as int)) <= i64::MAX as int ==> a.dot_fits(b),
{
    crate::fx::lemma_fxm_bound(a.x, b.x, ma, mb);
    crate::fx::lemma_fxm_bound(a.y, b.y, ma, mb);
    crate::fx::lemma_fxm_bound(a.z, b.z, ma, mb);
}

/// A normalized vector of bounded components is bounded by the scale.
pub proof fn lemma_vunit_bound(v: V3, mv: int)
    requires
        v.in_cube(mv),
        v.len() >= 1,
    ensures
        v.vunit().in_cube(mv * crate::fx::FX_ONE as int),
{
    crate::fx::lemma_fxd_bound(v.x, v.len(), mv);
    crate::fx::lemma_fxd_bound(v.y, v.len(), mv);
    crate::fx::lemma_fxd_bound(v.z, v.len(), mv);
}

/// Normalizes in place: every component is divided by the one length the
/// vector had on entry, so the result equals `unit_vector`.
impl Vec3 {
    /// Normalizes in place, dividing each component by the initial length.
    pub fn make_unit_vector(&mut self)
        requires
            old(self)@.dot_fits(old(self)@),
            old(self)@.len() > 0,
            old(self)@.vunit().fits(),
        ensures
            final(self)@ == old(self)@.vunit(),
    {
        let l = self.length();
        self.x = fx_div(self.x, l);
        self.y = fx_div(self.y, l);
        self.z = fx_div(self.z, l);
    }
}

} // verus!
