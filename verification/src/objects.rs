//! Geometry: spheres, hit records, and the scene aggregate that returns the
//! nearest intersection along a ray.
//!
//! The quadratic test mirrors the classic form: with `oc = origin - center`,
//! `a = d.d`, `b = oc.d`, `c = oc.oc - r^2`, a hit needs a strictly positive
//! discriminant `b^2 - a c`; an exactly tangent ray is a miss.

use vstd::prelude::*;

use crate::fx::{
    fx_div, fx_div_checked, fx_mul, fx_sqrt, fxd, fxm, fxsqrt, iabs, lemma_fxd_bound,
    lemma_fxm_bound, lemma_fxm_square_nonneg, lemma_sqrt_upper, FX_ONE,
};
use crate::material::Material;
use crate::ray::{spec_point_at, Ray};
use crate::vec3::{lemma_dot_bound, lemma_vscale_bound, V3, Vec3};
use crate::{DIR_MAX, POS_MAX, SCENE_MAX, T_RANGE_MAX};

verus! {

/// What a successful intersection test reports: the parametric distance,
/// the hit point, the outward surface normal and the surface's material.
#[derive(Clone, Copy, Debug, PartialEq, Eq, Structural)]
pub struct HitRecord {
    pub t: i64,
    pub p: Vec3,
    pub normal: Vec3,
    pub material: Material,
}

/// The sole built-in shape: a sphere carrying its material by value.
#[derive(Clone, Copy, Debug, PartialEq, Eq, Structural)]
pub struct Sphere {
    pub center: Vec3,
    pub radius: i64,
    pub material: Material,
}

/// A sphere within the numeric envelope of the intersection test.
pub open spec fn sphere_in_bounds(s: Sphere) -> bool {
    s.center@.in_cube(SCENE_MAX as int) && iabs(s.radius as int) <= SCENE_MAX as int
}

/// A ray within the numeric envelope of the intersection test.
pub open spec fn ray_in_bounds(r: Ray) -> bool {
    r.origin@.in_cube(SCENE_MAX as int) && r.direction@.in_cube(DIR_MAX as int)
}

/// Quadratic coefficient `a`: squared length of the ray direction.
pub open spec fn hit_a(ray: Ray) -> int {
    ray.direction@.vdot(ray.direction@)
}

/// The vector from the sphere's center to the ray's origin.
pub open spec fn hit_oc(s: Sphere, ray: Ray) -> V3 {
    ray.origin@.vsub(s.center@)
}

/// Quadratic coefficient `b`: `oc . direction`.
pub open spec fn hit_b(s: Sphere, ray: Ray) -> int {
    hit_oc(s, ray).vdot(ray.direction@)
}

/// Quadratic coefficient `c`: `oc . oc - radius^2`.
pub open spec fn hit_c(s: Sphere, ray: Ray) -> int {
    hit_oc(s, ray).vdot(hit_oc(s, ray)) - fxm(s.radius as int, s.radius as int)
}

/// The discriminant `b^2 - a c`; only a strictly positive value is a hit.
pub open spec fn hit_disc(s: Sphere, ray: Ray) -> int {
    fxm(hit_b(s, ray), hit_b(s, ray)) - fxm(hit_a(ray), hit_c(s, ray))
}

/// Fixed-point square root of the discriminant.
pub open spec fn hit_sqrt_disc(s: Sphere, ray: Ray) -> int {
    fxsqrt(hit_disc(s, ray))
}

/// The smaller root of the quadratic.
pub open spec fn hit_t0(s: Sphere, ray: Ray) -> int {
    fxd(-hit_b(s, ray) - hit_sqrt_disc(s, ray), hit_a(ray))
}

/// The larger root of the quadratic.
pub open spec fn hit_t1(s: Sphere, ray: Ray) -> int {
    fxd(-hit_b(s, ray) + hit_sqrt_disc(s, ray), hit_a(ray))
}

/// Whether a parametric distance lies within the accepted interval.
pub open spec fn t_in_range(t: int, t_min: int, t_max: int) -> bool {
    t_min <= t <= t_max
}

/// The root the test accepts: the smaller root where it lies in range,
/// the larger one otherwise.
pub open spec fn hit_accepted_t(s: Sphere, ray: Ray, t_min: int, t_max: int) -> int {
    if t_in_range(hit_t0(s, ray), t_min, t_max) {
        hit_t0(s, ray)
    } else {
        hit_t1(s, ray)
    }
}

/// The outward normal at the point hit at distance `t`: the hit point minus
/// the center, divided by the radius (so a negative radius flips it).
pub open spec fn hit_normal(s: Sphere, ray: Ray, t: int) -> V3 {
    spec_point_at(ray, t).vsub(s.center@).vscale_div(s.radius as int)
}

/// When the intersection test reports a hit: a nonzero radius, a strictly
/// positive discriminant, a direction of positive squared length, a root in
/// range, and a normal representable in 64 bits (a width guard that only
/// degenerate radius/distance combinations can fail).
pub open spec fn sphere_hit_some(s: Sphere, ray: Ray, t_min: int, t_max: int) -> bool {
    &&& s.radius != 0
    &&& hit_disc(s, ray) > 0
    &&& hit_a(ray) >= 1
    &&& (t_in_range(hit_t0(s, ray), t_min, t_max) || t_in_range(hit_t1(s, ray), t_min, t_max))
    &&& hit_normal(s, ray, hit_accepted_t(s, ray, t_min, t_max)).fits()
}

/// The exact content of a reported hit.
pub open spec fn sphere_hit_matches(
    s: Sphere,
    ray: Ray,
    t_min: int,
    t_max: int,
    h: HitRecord,
) -> bool {
    &&& h.t as int == hit_accepted_t(s, ray, t_min, t_max)
    &&& t_in_range(h.t as int, t_min, t_max)
    &&& h.p@ == spec_point_at(ray, h.t as int)
    &&& h.p@.in_cube(POS_MAX as int)
    &&& h.normal@ == hit_normal(s, ray, h.t as int)
    &&& h.material == s.material
}

impl Sphere {
    /// Builds a sphere from center, radius and material.
    pub fn new(center: Vec3, radius: i64, material: Material) -> (s: Sphere)
        ensures
            s.center == center,
            s.radius == radius,
            s.material == material,
    {
        Sphere { center, radius, material }
    }

    /// The nearest intersection with the ray whose parametric distance lies
    /// in `[t_min, t_max]`, if any.
    pub fn hit(&self, ray: &Ray, t_min: i64, t_max: i64) -> (res: Option<HitRecord>)
        requires
            sphere_in_bounds(*self),
            ray_in_bounds(*ray),
            iabs(t_min as int) <= T_RANGE_MAX as int,
            iabs(t_max as int) <= T_RANGE_MAX as int,
        ensures
            res is Some <==> sphere_hit_some(*self, *ray, t_min as int, t_max as int),
            res matches Some(h) ==> sphere_hit_matches(*self, *ray, t_min as int, t_max as int, h),
    {
        proof {
            lemma_dot_bound(ray.direction@, ray.direction@, DIR_MAX as int, DIR_MAX as int);
            lemma_fxm_square_nonneg(ray.direction@.x);
            lemma_fxm_square_nonneg(ray.direction@.y);
            lemma_fxm_square_nonneg(ray.direction@.z);
        }
        let oc = ray.origin().sub(&self.center);
        proof {
            assert(oc@.in_cube(4294967296));
            lemma_dot_bound(oc@, ray.direction@, 4294967296, DIR_MAX as int);
            lemma_dot_bound(oc@, oc@, 4294967296, 4294967296);
            lemma_fxm_bound(
                self.radius as int,
                self.radius as int,
                SCENE_MAX as int,
                SCENE_MAX as int,
            );
        }
        let a = ray.direction().dot(ray.direction());
        let b = oc.dot(ray.direction());
        let c = oc.dot(&oc) - fx_mul(self.radius, self.radius);
        proof {
            lemma_fxm_bound(b as int, b as int, 206158430208, 206158430208);
            lemma_fxm_bound(a as int, c as int, 805306368, 57174604644352);
        }
        let discriminant = fx_mul(b, b) - fx_mul(a, c);

        if self.radius != 0 && discriminant > 0 && a > 0 {
            proof {
                lemma_sqrt_upper(discriminant as int * FX_ONE as int, 549755813888);
            }
            let d_square = fx_sqrt(discriminant);
            proof {
                lemma_fxd_bound(-(b as int) - d_square as int, a as int, 755914244096);
                lemma_fxd_bound(-(b as int) + d_square as int, a as int, 755914244096);
            }
            let mut temp = fx_div(-b - d_square, a);
            if temp > t_max || temp < t_min {
                temp = fx_div(-b + d_square, a);
                if temp > t_max || temp < t_min {
                    return None;
                }
            }

            let t = temp;
            proof {
                assert(t as int == hit_accepted_t(*self, *ray, t_min as int, t_max as int));
                lemma_vscale_bound(ray.direction@, t as int, DIR_MAX as int, T_RANGE_MAX as int);
            }
            let p = ray.point_at_parameter(t);
            proof {
                assert(p@.in_cube(POS_MAX as int));
            }
            let pc = p.sub(&self.center);
            let nx = fx_div_checked(pc.x, self.radius);
            let ny = fx_div_checked(pc.y, self.radius);
            let nz = fx_div_checked(pc.z, self.radius);
            match (nx, ny, nz) {
                (Some(vx), Some(vy), Some(vz)) => {
                    let normal = Vec3::new(vx, vy, vz);
                    proof {
                        assert(normal@ == hit_normal(*self, *ray, t as int));
                    }
                    Some(HitRecord { t, p, normal, material: self.material })
                },
                _ => None,
            }
        } else {
            None
        }
    }
}

/// The scene: an ordered collection of spheres, scanned linearly.
pub struct HittableList {
    pub list: Vec<Sphere>,
}

/// Every sphere of a scene within the numeric envelope.
pub open spec fn geometry_in_bounds(objs: Seq<Sphere>) -> bool {
    forall|i: int| 0 <= i < objs.len() ==> sphere_in_bounds(#[trigger] objs[i])
}

/// The result of the linear scan with a shrinking upper bound: each sphere
/// is tested against an interval capped by the best distance so far, so the
/// final value is the nearest accepted hit, with the sphere that produced
/// it.
pub open spec fn list_best(objs: Seq<Sphere>, ray: Ray, t_min: int, t_max: int) -> Option<
    (int, Sphere),
>
    decreases objs.len(),
{
    if objs.len() == 0 {
        None
    } else {
        let prev = list_best(objs.drop_last(), ray, t_min, t_max);
        let cur_max = match prev {
            None => t_max,
            Some(ts) => ts.0,
        };
        let s = objs.last();
        if sphere_hit_some(s, ray, t_min, cur_max) {
            Some((hit_accepted_t(s, ray, t_min, cur_max), s))
        } else {
            prev
        }
    }
}

/// The exact content of a hit reported by the scene scan, produced by the
/// sphere `s` the scan settled on.
pub open spec fn list_hit_matches(
    objs: Seq<Sphere>,
    ray: Ray,
    t_min: int,
    t_max: int,
    h: HitRecord,
    s: Sphere,
) -> bool {
    &&& list_best(objs, ray, t_min, t_max) == Some((h.t as int, s))
    &&& t_in_range(h.t as int, t_min, t_max)
    &&& h.p@ == spec_point_at(ray, h.t as int)
    &&& h.p@.in_cube(POS_MAX as int)
    &&& h.normal@ == hit_normal(s, ray, h.t as int)
    &&& h.material == s.material
}

/// The sphere a scan settles on is one of the scene's spheres, and its
/// distance lies within the scanned interval.
pub proof fn lemma_list_best_member(objs: Seq<Sphere>, ray: Ray, t_min: int, t_max: int)
    requires
        list_best(objs, ray, t_min, t_max) is Some,
    ensures
        objs.contains(list_best(objs, ray, t_min, t_max)->Some_0.1),
        t_in_range(list_best(objs, ray, t_min, t_max)->Some_0.0, t_min, t_max),
    decreases objs.len(),
{
    let prev = list_best(objs.drop_last(), ray, t_min, t_max);
    let cur_max = match prev {
        None => t_max,
        Some(ts) => ts.0,
    };
    let s = objs.last();
    if sphere_hit_some(s, ray, t_min, cur_max) {
        assert(objs[objs.len() - 1] == s);
        if prev is Some {
            lemma_list_best_member(objs.drop_last(), ray, t_min, t_max);
        }
    } else {
        lemma_list_best_member(objs.drop_last(), ray, t_min, t_max);
        let ps = prev->Some_0.1;
        let i = choose|i: int| 0 <= i < objs.drop_last().len() && objs.drop_last()[i] == ps;
        assert(objs[i] == ps);
    }
}

impl HittableList {
    /// Builds an empty scene.
    pub fn new() -> (r: HittableList)
        ensures
            r.list@.len() == 0,
    {
        HittableList { list: Vec::new() }
    }

    /// Appends a sphere to the scene.
    pub fn add(&mut self, object: Sphere)
        ensures
            final(self).list@ == old(self).list@.push(object),
    {
        self.list.push(object);
    }

    /// The nearest hit among all spheres: a linear scan keeping a shrinking
    /// `closest_so_far` bound, so the result does not depend on insertion
    /// order.
    pub fn hit(&self, ray: &Ray, t_min: i64, t_max: i64) -> (res: Option<HitRecord>)
        requires
            geometry_in_bounds(self.list@),
            ray_in_bounds(*ray),
            iabs(t_min as int) <= T_RANGE_MAX as int,
            iabs(t_max as int) <= T_RANGE_MAX as int,
        ensures
            res is None ==> list_best(self.list@, *ray, t_min as int, t_max as int) is None,
            res matches Some(h) ==> exists|s: Sphere|
                #[trigger] list_hit_matches(self.list@, *ray, t_min as int, t_max as int, h, s),
    {
        let mut record: Option<HitRecord> = None;
        let mut closest_so_far: i64 = t_max;
        let ghost mut best_s: Sphere = arbitrary();
        let mut idx: usize = 0;

        while idx < self.list.len()
            invariant
                idx <= self.list@.len(),
                geometry_in_bounds(self.list@),
                ray_in_bounds(*ray),
                iabs(t_min as int) <= T_RANGE_MAX as int,
                iabs(t_max as int) <= T_RANGE_MAX as int,
                iabs(closest_so_far as int) <= T_RANGE_MAX as int,
                match record {
                    None => list_best(self.list@.take(idx as int), *ray, t_min as int, t_max as int)
                        is None && closest_so_far == t_max,
                    Some(h) => {
                        &&& list_best(self.list@.take(idx as int), *ray, t_min as int, t_max as int)
                            == Some((h.t as int, best_s))
                        &&& closest_so_far == h.t
                        &&& t_in_range(h.t as int, t_min as int, t_max as int)
                        &&& h.p@ == spec_point_at(*ray, h.t as int)
                        &&& h.p@.in_cube(POS_MAX as int)
                        &&& h.normal@ == hit_normal(best_s, *ray, h.t as int)
                        &&& h.material == best_s.material
                    },
                },
            decreases self.list@.len() - idx,
        {
            let s = self.list[idx];
            proof {
                assert(self.list@.take(idx + 1).drop_last() =~= self.list@.take(idx as int));
                assert(self.list@.take(idx + 1).last() == self.list@[idx as int]);
            }
            if let Some(r) = s.hit(ray, t_min, closest_so_far) {
                closest_so_far = r.t;
                record = Some(r);
                proof {
                    best_s = self.list@[idx as int];
                }
            }
            idx = idx + 1;
        }
        proof {
            assert(self.list@.take(self.list@.len() as int) =~= self.list@);
            if record is Some {
                let h = record->Some_0;
                assert(list_hit_matches(
                    self.list@,
                    *ray,
                    t_min as int,
                    t_max as int,
                    h,
                    best_s,
                ));
            }
        }
        record
    }
}

} // verus!
