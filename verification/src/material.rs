//! Material scattering: Lambertian diffuse, fuzzy metal reflection and
//! dielectric refraction with Schlick's reflectance approximation.
//!
//! Scattering consumes randomness, so each contract states the exact result
//! for *some* admissible random sample: a unit-ball point for the diffuse
//! and metal models, a unit scalar for the dielectric's reflection choice.
//! Everything after the draw is pinned down exactly.

use vstd::prelude::*;

use crate::fx::{
    fits_i64, fx_div, fx_mul, fx_sqrt, fxd, fxm, fxsqrt, iabs, lemma_fxd_bound, lemma_fxd_le_one,
    lemma_fxd_lower, lemma_fxm_bound, lemma_fxm_square_nonneg, lemma_sqrt_floor, lemma_sqrt_upper,
    FX_ONE,
};
use crate::objects::HitRecord;
use crate::ray::Ray;
use crate::sampling::{random_in_unit_sphere, random_unit_scalar};
use crate::vec3::{lemma_dot_bound, lemma_vscale_bound, lemma_vunit_bound, V3, Vec3};
use crate::{COS_LIMIT, DIR_MAX, NORM_MAX, POS_MAX, RI_MAX, RI_MIN};

verus! {

/// An albedo is a color with every channel in `[0, 1]`.
pub open spec fn albedo_wf(v: V3) -> bool {
    &&& 0 <= v.x <= FX_ONE as int
    &&& 0 <= v.y <= FX_ONE as int
    &&& 0 <= v.z <= FX_ONE as int
}

/// A point of the closed unit cube strictly inside the unit ball, the form
/// of every rejection-sampled direction offset.
pub open spec fn in_ball(q: V3) -> bool {
    q.in_cube(FX_ONE as int) && q.len2() < FX_ONE as int
}

/// One bounce's worth of randomness: a unit-ball point (consumed by the
/// diffuse and metal models) and a unit scalar (the dielectric's
/// reflectance draw).
pub ghost struct Sample {
    pub q: V3,
    pub u: int,
}

/// An admissible per-bounce sample.
pub open spec fn sample_wf(s: Sample) -> bool {
    in_ball(s.q) && 0 <= s.u < FX_ONE as int
}

/// The inputs every scattering model accepts: a ray direction, a surface
/// normal and a hit point within the numeric envelope.
pub open spec fn scatter_inputs_ok(ray: Ray, rec: HitRecord) -> bool {
    &&& ray.direction@.in_cube(DIR_MAX as int)
    &&& rec.normal@.in_cube(NORM_MAX as int)
    &&& rec.p@.in_cube(POS_MAX as int)
}

/// Mirror reflection of `v` about `n`: `v - 2 (v . n) n`.
pub open spec fn spec_reflect(v: V3, n: V3) -> V3 {
    v.vsub(n.vscale(2 * v.vdot(n)))
}

/// All intermediate values of a reflection representable as `i64`.
pub open spec fn reflect_fits(v: V3, n: V3) -> bool {
    &&& v.dot_fits(n)
    &&& fits_i64(2 * v.vdot(n))
    &&& n.vscale(2 * v.vdot(n)).fits()
    &&& v.vsub(n.vscale(2 * v.vdot(n))).fits()
}

/// Componentwise bounds are enough for a reflection to stay representable.
pub proof fn lemma_reflect_fits(v: V3, n: V3, mv: int, mn: int)
    requires
        v.in_cube(mv),
        n.in_cube(mn),
        0 <= mv,
        0 <= mn,
        3 * ((mv * mn) / (FX_ONE as int)) <= i64::MAX as int,
        6 * ((mv * mn) / (FX_ONE as int)) <= i64::MAX as int,
        (mn * (6 * ((mv * mn) / (FX_ONE as int)))) / (FX_ONE as int) <= i64::MAX as int,
        mv + (mn * (6 * ((mv * mn) / (FX_ONE as int)))) / (FX_ONE as int) <= i64::MAX as int,
    ensures
        reflect_fits(v, n),
        spec_reflect(v, n).in_cube(mv + (mn * (6 * ((mv * mn) / (FX_ONE as int)))) / (FX_ONE as int)),
{
    lemma_dot_bound(v, n, mv, mn);
    lemma_vscale_bound(n, 2 * v.vdot(n), mn, 6 * ((mv * mn) / (FX_ONE as int)));
}

/// Mirror reflection about a normal.
pub fn reflect(v: &Vec3, n: &Vec3) -> (r: Vec3)
    requires
        reflect_fits(v@, n@),
    ensures
        r@ == spec_reflect(v@, n@),
{
    let d = v.dot(n);
    let s = n.scale(2 * d);
    v.sub(&s)
}

/// Snell refraction of `v` through a surface with outward normal `n` and
/// relative index `ni`: the transmitted direction where the inner
/// discriminant is positive, absence on total internal reflection. A cosine
/// beyond the width guard (possible only through truncation on degenerate
/// inputs) also counts as total internal reflection.
pub open spec fn spec_refract(v: V3, n: V3, ni: int) -> Option<V3> {
    let uv = v.vunit();
    let dt = uv.vdot(n);
    if iabs(dt) > COS_LIMIT as int {
        None
    } else {
        let disc = FX_ONE as int - fxm(fxm(ni, ni), FX_ONE as int - fxm(dt, dt));
        if disc > 0 {
            Some(uv.vsub(n.vscale(dt)).vscale(ni).vsub(n.vscale(fxsqrt(disc))))
        } else {
            None
        }
    }
}

/// Attempts Snell refraction; absence signals total internal reflection.
pub fn refract(v: &Vec3, n: &Vec3, ni_over_nt: i64) -> (r: Option<Vec3>)
    requires
        v@.in_cube(DIR_MAX as int),
        n@.in_cube(NORM_MAX as int),
        v@.len2() >= 1,
        1 <= ni_over_nt <= RI_MAX,
    ensures
        match r {
            Some(u) => spec_refract(v@, n@, ni_over_nt as int) == Some(u@),
            None => spec_refract(v@, n@, ni_over_nt as int) is None,
        },
{
    proof {
        lemma_dot_bound(v@, v@, DIR_MAX as int, DIR_MAX as int);
        lemma_sqrt_floor(v@.len2() * FX_ONE as int);
        crate::fx::lemma_sqrt_pos(v@.len2() * FX_ONE as int);
        assert(v@.len() >= 1);
        lemma_vunit_bound(v@, DIR_MAX as int);
    }
    let uv = v.unit_vector();
    proof {
        lemma_dot_bound(uv@, n@, 17592186044416, NORM_MAX as int);
    }
    let dt = uv.dot(n);
    if dt > COS_LIMIT || dt < -COS_LIMIT {
        return None;
    }
    proof {
        lemma_fxm_bound(dt as int, dt as int, COS_LIMIT as int, COS_LIMIT as int);
        lemma_fxm_bound(
            ni_over_nt as int,
            ni_over_nt as int,
            RI_MAX as int,
            RI_MAX as int,
        );
        lemma_fxm_bound(
            fxm(ni_over_nt as int, ni_over_nt as int),
            FX_ONE as int - fxm(dt as int, dt as int),
            67108864,
            17825792,
        );
    }
    let dt2 = fx_mul(dt, dt);
    let ni2 = fx_mul(ni_over_nt, ni_over_nt);
    let k = fx_mul(ni2, FX_ONE - dt2);
    let discriminant = FX_ONE - k;
    if discriminant > 0 {
        proof {
            lemma_sqrt_upper(discriminant as int * FX_ONE as int, 67108864);
            lemma_vscale_bound(n@, dt as int, NORM_MAX as int, COS_LIMIT as int);
        }
        let sq = fx_sqrt(discriminant);
        let inner = uv.sub(&n.scale(dt));
        proof {
            assert(inner@.in_cube(17592202821632));
            lemma_vscale_bound(inner@, ni_over_nt as int, 17592202821632, RI_MAX as int);
            lemma_vscale_bound(n@, sq as int, NORM_MAX as int, 67108864);
        }
        let scaled = inner.scale(ni_over_nt);
        let out = scaled.sub(&n.scale(sq));
        Some(out)
    } else {
        None
    }
}

/// Schlick's approximation of Fresnel reflectance:
/// `r0 + (1 - r0) (1 - cosine)^5` with `r0 = ((1 - n) / (1 + n))^2`.
pub open spec fn spec_schlick(cos: int, ri: int) -> int {
    let r0 = fxd(FX_ONE as int - ri, FX_ONE as int + ri);
    let r0s = fxm(r0, r0);
    let c = FX_ONE as int - cos;
    r0s + fxm(FX_ONE as int - r0s, fxm(fxm(fxm(c, c), fxm(c, c)), c))
}

/// Schlick's reflectance approximation.
pub fn schlick(cosine: i64, ref_idx: i64) -> (r: i64)
    requires
        -COS_LIMIT <= cosine <= COS_LIMIT,
        RI_MIN <= ref_idx <= RI_MAX,
    ensures
        r as int == spec_schlick(cosine as int, ref_idx as int),
{
    proof {
        lemma_fxd_le_one(FX_ONE as int - ref_idx as int, FX_ONE as int + ref_idx as int);
        let r0 = fxd(FX_ONE as int - ref_idx as int, FX_ONE as int + ref_idx as int);
        lemma_fxm_bound(r0, r0, FX_ONE as int, FX_ONE as int);
        lemma_fxm_square_nonneg(r0);
        let c = FX_ONE as int - cosine as int;
        lemma_fxm_bound(c, c, 5242880, 5242880);
        lemma_fxm_bound(fxm(c, c), fxm(c, c), 26214400, 26214400);
        lemma_fxm_bound(fxm(fxm(c, c), fxm(c, c)), c, 655360000, 5242880);
        lemma_fxm_bound(
            FX_ONE as int - fxm(r0, r0),
            fxm(fxm(fxm(c, c), fxm(c, c)), c),
            FX_ONE as int,
            3276800000,
        );
    }
    let r0 = fx_div(FX_ONE - ref_idx, FX_ONE + ref_idx);
    let r0s = fx_mul(r0, r0);
    let c = FX_ONE - cosine;
    let c2 = fx_mul(c, c);
    let c4 = fx_mul(c2, c2);
    let c5 = fx_mul(c4, c);
    r0s + fx_mul(FX_ONE - r0s, c5)
}

/// A diffuse surface: scatters into the unit ball around the normal tip.
#[derive(Clone, Copy, Debug, PartialEq, Eq, Structural)]
pub struct Lambertian {
    pub albedo: Vec3,
}

/// A reflective surface with a fuzz radius perturbing the mirror direction.
#[derive(Clone, Copy, Debug, PartialEq, Eq, Structural)]
pub struct Metal {
    pub albedo: Vec3,
    pub fuzz: i64,
}

/// A transparent surface refracting by its refractive index.
#[derive(Clone, Copy, Debug, PartialEq, Eq, Structural)]
pub struct Dielectric {
    pub ref_idx: i64,
}

/// The closed set of scattering models a surface can have.
#[derive(Clone, Copy, Debug, PartialEq, Eq, Structural)]
pub enum Material {
    Lambertian(Lambertian),
    Metal(Metal),
    Dielectric(Dielectric),
}

/// What a diffuse scatter returns for the unit-ball sample `q`: the albedo
/// and a ray from the hit point toward `normal + q`, never absent.
pub open spec fn lambertian_scatter_ok(
    m: Lambertian,
    rec: HitRecord,
    q: V3,
    r: Option<(Vec3, Ray)>,
) -> bool {
    match r {
        Some(ar) => {
            &&& ar.0 == m.albedo
            &&& ar.1.origin == rec.p
            &&& ar.1.direction@ == rec.p@.vadd(rec.normal@).vadd(q).vsub(rec.p@)
        },
        None => false,
    }
}

/// What a metal scatter returns for the unit-ball sample `q`: the mirror
/// direction of the normalized incoming ray, fuzzed by `fuzz * q`; absent
/// when that direction does not leave the surface (or the incoming
/// direction has no direction to normalize).
pub open spec fn metal_scatter_ok(
    m: Metal,
    ray: Ray,
    rec: HitRecord,
    q: V3,
    r: Option<(Vec3, Ray)>,
) -> bool {
    let d = ray.direction@;
    if d.len2() == 0 {
        r is None
    } else {
        let dir = spec_reflect(d.vunit(), rec.normal@).vadd(q.vscale(m.fuzz as int));
        if dir.vdot(rec.normal@) > 0 {
            match r {
                Some(ar) => {
                    &&& ar.0 == m.albedo
                    &&& ar.1.origin == rec.p
                    &&& ar.1.direction@ == dir
                },
                None => false,
            }
        } else {
            r is None
        }
    }
}

/// A scatter result carrying neutral attenuation and the given direction.
pub open spec fn scatter_to(r: Option<(Vec3, Ray)>, p: Vec3, dir: V3) -> bool {
    match r {
        Some(ar) => {
            &&& ar.0@ == (V3 { x: FX_ONE as int, y: FX_ONE as int, z: FX_ONE as int })
            &&& ar.1.origin == p
            &&& ar.1.direction@ == dir
        },
        None => false,
    }
}

/// The width guard on computed cosines: values beyond the guard (possible
/// only through truncation on degenerate inputs) are clamped.
pub open spec fn clamp_cos(c: int) -> int {
    if c > COS_LIMIT as int {
        COS_LIMIT as int
    } else if c < -COS_LIMIT as int {
        -COS_LIMIT as int
    } else {
        c
    }
}

/// The dielectric's scattered direction for the unit scalar `u`: the
/// refracted direction where Snell's law allows it and `u` is not below
/// the Schlick reflectance at the (clamped) incidence cosine, the mirror
/// direction otherwise; a direction without a length also reflects.
pub open spec fn dielectric_dir(m: Dielectric, d: V3, n: V3, u: int) -> V3 {
    let refl = spec_reflect(d, n);
    if d.len2() == 0 {
        refl
    } else {
        let dn = d.vdot(n);
        let outward = if dn > 0 {
            n.vneg()
        } else {
            n
        };
        let ni = if dn > 0 {
            m.ref_idx as int
        } else {
            fxd(FX_ONE as int, m.ref_idx as int)
        };
        let cos0 = if dn > 0 {
            fxd(fxm(m.ref_idx as int, dn), d.len())
        } else {
            fxd(-dn, d.len())
        };
        match spec_refract(d, outward, ni) {
            Some(refr) => {
                if u < spec_schlick(clamp_cos(cos0), m.ref_idx as int) {
                    refl
                } else {
                    refr
                }
            },
            None => refl,
        }
    }
}

/// What a dielectric scatter returns for the unit scalar `u`: always a ray
/// from the hit point with neutral attenuation, in the direction the
/// reflectance draw decides.
pub open spec fn dielectric_scatter_ok(
    m: Dielectric,
    ray: Ray,
    rec: HitRecord,
    u: int,
    r: Option<(Vec3, Ray)>,
) -> bool {
    scatter_to(r, rec.p, dielectric_dir(m, ray.direction@, rec.normal@, u))
}

/// What a material scatters, constructively: the attenuation and the new
/// direction (the new origin is always the hit point), or absorption.
pub open spec fn scatter_spec(m: Material, d: V3, p: V3, n: V3, s: Sample) -> Option<(V3, V3)> {
    match m {
        Material::Lambertian(l) => Some((l.albedo@, p.vadd(n).vadd(s.q).vsub(p))),
        Material::Metal(mm) => {
            if d.len2() == 0 {
                None
            } else {
                let dir = spec_reflect(d.vunit(), n).vadd(s.q.vscale(mm.fuzz as int));
                if dir.vdot(n) > 0 {
                    Some((mm.albedo@, dir))
                } else {
                    None
                }
            }
        },
        Material::Dielectric(dd) => Some(
            (
                V3 { x: FX_ONE as int, y: FX_ONE as int, z: FX_ONE as int },
                dielectric_dir(dd, d, n, s.u),
            ),
        ),
    }
}

/// A scatter result agrees with the constructive outcome for the sample
/// `s`: absorbed exactly when the model absorbs, and otherwise a ray from
/// the hit point with the model's attenuation and direction.
pub open spec fn scatter_rel(
    m: Material,
    ray: Ray,
    rec: HitRecord,
    s: Sample,
    r: Option<(Vec3, Ray)>,
) -> bool {
    match scatter_spec(m, ray.direction@, rec.p@, rec.normal@, s) {
        Some(av) => match r {
            Some(ar) => ar.0@ == av.0 && ar.1.origin == rec.p && ar.1.direction@ == av.1,
            None => false,
        },
        None => r is None,
    }
}

impl Lambertian {
    /// Builds a diffuse surface from its albedo.
    pub fn new(albedo: Vec3) -> (m: Lambertian)
        ensures
            m.albedo == albedo,
    {
        Lambertian { albedo }
    }

    /// Diffuse scatter: a ray toward the normal tip offset by a unit-ball
    /// sample; never absorbs.
    pub fn scatter(
        &self,
        _ray_in: &Ray,
        record: &HitRecord,
        rng: &mut rand::rngs::ThreadRng,
    ) -> (r: Option<(Vec3, Ray)>)
        requires
            record.normal@.in_cube(NORM_MAX as int),
            record.p@.in_cube(POS_MAX as int),
        ensures
            exists|q: V3| in_ball(q) && lambertian_scatter_ok(*self, *record, q, r),
            r is Some,
    {
        let q = random_in_unit_sphere(rng);
        let target = record.p.add(&record.normal).add(&q);
        let scattered = Ray::new(record.p, target.sub(&record.p));
        let attenuation = self.albedo;
        let result = Some((attenuation, scattered));
        proof {
            assert(in_ball(q@) && lambertian_scatter_ok(*self, *record, q@, result));
        }
        result
    }
}

impl Metal {
    /// Builds a metal surface; a fuzz outside `[0, 1)` (negative values
    /// included) is forced to one, exactly as stated.
    pub fn new(albedo: Vec3, f: i64) -> (m: Metal)
        ensures
            m.albedo == albedo,
            m.fuzz as int == (if 0 <= f && f < FX_ONE {
                f as int
            } else {
                FX_ONE as int
            }),
    {
        Metal { albedo, fuzz: if f < FX_ONE && f >= 0 { f } else { FX_ONE } }
    }

    /// Metal scatter: the fuzzed mirror direction, or absorption when it
    /// would re-enter the surface.
    pub fn scatter(
        &self,
        ray_in: &Ray,
        record: &HitRecord,
        rng: &mut rand::rngs::ThreadRng,
    ) -> (r: Option<(Vec3, Ray)>)
        requires
            scatter_inputs_ok(*ray_in, *record),
            0 <= self.fuzz <= FX_ONE,
        ensures
            exists|q: V3| in_ball(q) && metal_scatter_ok(*self, *ray_in, *record, q, r),
    {
        let q = random_in_unit_sphere(rng);
        proof {
            lemma_dot_bound(ray_in.direction@, ray_in.direction@, DIR_MAX as int, DIR_MAX as int);
        }
        let slen = ray_in.direction().squared_length();
        if slen == 0 {
            proof {
                assert(in_ball(q@) && metal_scatter_ok(*self, *ray_in, *record, q@, None));
            }
            return None;
        }
        proof {
            lemma_sqrt_floor(ray_in.direction@.len2() * FX_ONE as int);
            crate::fx::lemma_sqrt_pos(ray_in.direction@.len2() * FX_ONE as int);
            assert(ray_in.direction@.len() >= 1);
            lemma_vunit_bound(ray_in.direction@, DIR_MAX as int);
        }
        let unit = ray_in.direction().unit_vector();
        proof {
            lemma_reflect_fits(unit@, record.normal@, 17592186044416, NORM_MAX as int);
            lemma_vscale_bound(q@, self.fuzz as int, FX_ONE as int, FX_ONE as int);
        }
        let reflected = reflect(&unit, &record.normal);
        let fq = q.scale(self.fuzz);
        let dir = reflected.add(&fq);
        let scattered = Ray::new(record.p, dir);
        proof {
            assert(dir@.in_cube(1706442047356928));
            lemma_dot_bound(dir@, record.normal@, 1706442047356928, NORM_MAX as int);
        }
        let dp = scattered.direction().dot(&record.normal);
        let result = if dp > 0 {
            Some((self.albedo, scattered))
        } else {
            None
        };
        proof {
            assert(in_ball(q@) && metal_scatter_ok(*self, *ray_in, *record, q@, result));
        }
        result
    }
}

impl Dielectric {
    /// Builds a transparent surface from its refractive index.
    pub fn new(ref_idx: i64) -> (m: Dielectric)
        ensures
            m.ref_idx == ref_idx,
    {
        Dielectric { ref_idx }
    }

    /// Dielectric scatter: refracts where Snell's law allows it and the
    /// reflectance draw passes, reflects otherwise; never absorbs.
    pub fn scatter(
        &self,
        ray_in: &Ray,
        record: &HitRecord,
        rng: &mut rand::rngs::ThreadRng,
    ) -> (r: Option<(Vec3, Ray)>)
        requires
            scatter_inputs_ok(*ray_in, *record),
            RI_MIN <= self.ref_idx <= RI_MAX,
        ensures
            exists|u: int|
                0 <= u < FX_ONE as int && dielectric_scatter_ok(*self, *ray_in, *record, u, r),
            r is Some,
    {
        proof {
            lemma_reflect_fits(ray_in.direction@, record.normal@, DIR_MAX as int, NORM_MAX as int);
            lemma_dot_bound(ray_in.direction@, ray_in.direction@, DIR_MAX as int, DIR_MAX as int);
        }
        let reflected = reflect(ray_in.direction(), &record.normal);
        let attenuation = Vec3::of(FX_ONE);
        let slen = ray_in.direction().squared_length();
        if slen == 0 {
            let result = Some((attenuation, Ray::new(record.p, reflected)));
            proof {
                assert(dielectric_scatter_ok(*self, *ray_in, *record, 0, result));
            }
            return result;
        }
        proof {
            lemma_sqrt_floor(ray_in.direction@.len2() * FX_ONE as int);
            crate::fx::lemma_sqrt_pos(ray_in.direction@.len2() * FX_ONE as int);
            assert(ray_in.direction@.len() >= 1);
            lemma_dot_bound(ray_in.direction@, record.normal@, DIR_MAX as int, NORM_MAX as int);
        }
        let len = fx_sqrt(slen);
        let dn = ray_in.direction().dot(&record.normal);
        let outward: Vec3;
        let ni_over_nt: i64;
        let cos0: i64;
        if dn > 0 {
            outward = record.normal.neg();
            ni_over_nt = self.ref_idx;
            proof {
                lemma_fxm_bound(self.ref_idx as int, dn as int, RI_MAX as int, 201326592);
                lemma_fxd_bound(fxm(self.ref_idx as int, dn as int), len as int, 1610612736);
            }
            cos0 = fx_div(fx_mul(self.ref_idx, dn), len);
        } else {
            outward = record.normal;
            proof {
                lemma_fxd_bound(FX_ONE as int, self.ref_idx as int, FX_ONE as int);
                lemma_fxd_lower(FX_ONE as int, self.ref_idx as int, RI_MAX as int);
                crate::fx::lemma_tdiv_abs(
                    FX_ONE as int * FX_ONE as int,
                    self.ref_idx as int,
                );
                vstd::arithmetic::div_mod::lemma_div_is_ordered_by_denominator(
                    FX_ONE as int * FX_ONE as int,
                    RI_MIN as int,
                    self.ref_idx as int,
                );
            }
            ni_over_nt = fx_div(FX_ONE, self.ref_idx);
            proof {
                lemma_fxd_bound(-dn as int, len as int, 201326592);
            }
            cos0 = fx_div(-dn, len);
        }
        let cosine = if cos0 > COS_LIMIT {
            COS_LIMIT
        } else if cos0 < -COS_LIMIT {
            -COS_LIMIT
        } else {
            cos0
        };
        let scattered_dir: Vec3;
        let ghost mut uw: int = 0;
        match refract(ray_in.direction(), &outward, ni_over_nt) {
            Some(refracted) => {
                let s = schlick(cosine, self.ref_idx);
                let u = random_unit_scalar(rng);
                proof {
                    uw = u as int;
                }
                if u < s {
                    scattered_dir = reflected;
                } else {
                    scattered_dir = refracted;
                }
            },
            None => {
                scattered_dir = reflected;
            },
        }
        let result = Some((attenuation, Ray::new(record.p, scattered_dir)));
        proof {
            assert(0 <= uw < FX_ONE as int);
            assert(dielectric_scatter_ok(*self, *ray_in, *record, uw, result));
        }
        result
    }
}

impl Material {
    /// The ranges under which a material's scattering is verified: albedo
    /// channels in `[0, 1]` and fuzz in `[0, 1]` (the scene interface and
    /// the constructor's clamp), and a refractive index in
    /// `[RI_MIN, RI_MAX]` = [0.125, 8] — a width-forced bound (see those
    /// constants) that covers every physical index.
    pub open spec fn wf(self) -> bool {
        match self {
            Material::Lambertian(m) => albedo_wf(m.albedo@),
            Material::Metal(m) => albedo_wf(m.albedo@) && 0 <= m.fuzz <= FX_ONE,
            Material::Dielectric(m) => RI_MIN <= m.ref_idx <= RI_MAX,
        }
    }

    /// Dispatches to the variant's scattering model.
    pub fn scatter(
        &self,
        ray_in: &Ray,
        record: &HitRecord,
        rng: &mut rand::rngs::ThreadRng,
    ) -> (r: Option<(Vec3, Ray)>)
        requires
            scatter_inputs_ok(*ray_in, *record),
            self.wf(),
        ensures
            *self matches Material::Lambertian(m) ==> r is Some && (exists|q: V3|
                in_ball(q) && lambertian_scatter_ok(m, *record, q, r)),
            *self matches Material::Metal(m) ==> (exists|q: V3|
                in_ball(q) && metal_scatter_ok(m, *ray_in, *record, q, r)),
            *self matches Material::Dielectric(m) ==> r is Some && (exists|u: int|
                0 <= u < FX_ONE as int && dielectric_scatter_ok(m, *ray_in, *record, u, r)),
            exists|s: Sample| #[trigger] sample_wf(s) && scatter_rel(*self, *ray_in, *record, s, r),
    {
        match self {
            Material::Lambertian(m) => {
                let r = m.scatter(ray_in, record, rng);
                proof {
                    let q = choose|q: V3| in_ball(q) && lambertian_scatter_ok(*m, *record, q, r);
                    let s = Sample { q, u: 0 };
                    assert(sample_wf(s) && scatter_rel(*self, *ray_in, *record, s, r));
                }
                r
            },
            Material::Metal(m) => {
                let r = m.scatter(ray_in, record, rng);
                proof {
                    let q = choose|q: V3|
                        in_ball(q) && metal_scatter_ok(*m, *ray_in, *record, q, r);
                    let s = Sample { q, u: 0 };
                    assert(sample_wf(s) && scatter_rel(*self, *ray_in, *record, s, r));
                }
                r
            },
            Material::Dielectric(m) => {
                let r = m.scatter(ray_in, record, rng);
                proof {
                    let u = choose|u: int|
                        0 <= u < FX_ONE as int && dielectric_scatter_ok(*m, *ray_in, *record, u, r);
                    crate::fx::lemma_fxm_zero(0);
                    let s = Sample { q: V3 { x: 0, y: 0, z: 0 }, u };
                    assert(sample_wf(s) && scatter_rel(*self, *ray_in, *record, s, r));
                }
                r
            },
        }
    }
}

} // verus!
