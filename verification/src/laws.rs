//! Laws of the tracer, stated and proved over the same spec functions the
//! executable contracts use.

use vstd::prelude::*;

use crate::fx::{
    fxm, fxsqrt, iabs, lemma_fxm_neg, lemma_fxm_one, lemma_fxm_zero, lemma_sqrt_floor,
    lemma_sqrt_unique, lemma_tdiv_ordered, FX_ONE,
};
use crate::material::{metal_scatter_ok, spec_reflect, spec_refract, Metal};
use crate::objects::{
    hit_a, hit_accepted_t, hit_disc, hit_t0, hit_t1, list_best, sphere_hit_some, t_in_range,
    HitRecord, Sphere,
};
use crate::ray::Ray;
use crate::vec3::{V3, Vec3};
use crate::COS_LIMIT;

verus! {

/// A ray whose closest approach to a sphere's center makes the discriminant
/// vanish (or go negative) is a miss: only a strictly positive discriminant
/// reports a hit.
pub proof fn lemma_tangent_ray_misses(s: Sphere, ray: Ray, t_min: int, t_max: int)
    requires
        hit_disc(s, ray) <= 0,
    ensures
        !sphere_hit_some(s, ray, t_min, t_max),
{
}

/// The two roots of the quadratic come out ordered.
pub proof fn lemma_roots_ordered(s: Sphere, ray: Ray)
    requires
        hit_a(ray) >= 1,
        hit_disc(s, ray) >= 0,
    ensures
        hit_t0(s, ray) <= hit_t1(s, ray),
{
    lemma_sqrt_floor(hit_disc(s, ray) * FX_ONE as int);
    let sd = crate::objects::hit_sqrt_disc(s, ray);
    assert(sd >= 0);
    let nb = -crate::objects::hit_b(s, ray);
    lemma_tdiv_ordered((nb - sd) * FX_ONE as int, (nb + sd) * FX_ONE as int, hit_a(ray));
}

/// A scene of two spheres both hit by the ray reports the smaller of the
/// two individual distances.
proof fn lemma_pair_nearest(a: Sphere, b: Sphere, ray: Ray, t_min: int, t_max: int)
    requires
        sphere_hit_some(a, ray, t_min, t_max),
        sphere_hit_some(b, ray, t_min, t_max),
    ensures
        ({
            let ta = hit_accepted_t(a, ray, t_min, t_max);
            let tb = hit_accepted_t(b, ray, t_min, t_max);
            let best = list_best(seq![a, b], ray, t_min, t_max);
            best is Some && best->Some_0.0 == (if ta <= tb {
                ta
            } else {
                tb
            })
        }),
{
    let ta = hit_accepted_t(a, ray, t_min, t_max);
    let tb = hit_accepted_t(b, ray, t_min, t_max);
    let s2 = seq![a, b];
    assert(s2.len() == 2);
    assert(seq![a].len() == 1);
    assert(s2.drop_last() =~= seq![a]);
    assert(seq![a].drop_last() =~= Seq::<Sphere>::empty());
    assert(list_best(Seq::<Sphere>::empty(), ray, t_min, t_max) is None);
    assert(seq![a].last() == a);
    assert(s2.last() == b);
    assert(list_best(seq![a], ray, t_min, t_max) == Some((ta, a)));
    lemma_roots_ordered(b, ray);
    let t0b = hit_t0(b, ray);
    let t1b = hit_t1(b, ray);
    assert(t_in_range(ta, t_min, t_max));
    assert(t_in_range(tb, t_min, t_max));
    if tb <= ta {
        if t_in_range(t0b, t_min, t_max) {
            assert(hit_accepted_t(b, ray, t_min, ta) == t0b);
        } else {
            assert(tb == t1b);
            assert(t0b <= t1b);
            assert(t0b < t_min);
            assert(hit_accepted_t(b, ray, t_min, ta) == t1b);
        }
        assert(sphere_hit_some(b, ray, t_min, ta));
        assert(list_best(s2, ray, t_min, t_max) == Some((tb, b)));
    } else {
        assert(!t_in_range(t0b, t_min, ta) && !t_in_range(t1b, t_min, ta));
        assert(!sphere_hit_some(b, ray, t_min, ta));
        assert(list_best(s2, ray, t_min, t_max) == Some((ta, a)));
    }
}

/// Given two overlapping spheres along one ray, the scene's reported
/// distance is the smaller of the two spheres' individual distances,
/// independent of insertion order.
pub proof fn lemma_scene_returns_nearest(a: Sphere, b: Sphere, ray: Ray, t_min: int, t_max: int)
    requires
        sphere_hit_some(a, ray, t_min, t_max),
        sphere_hit_some(b, ray, t_min, t_max),
    ensures
        ({
            let ta = hit_accepted_t(a, ray, t_min, t_max);
            let tb = hit_accepted_t(b, ray, t_min, t_max);
            let nearest = if ta <= tb {
                ta
            } else {
                tb
            };
            let fwd = list_best(seq![a, b], ray, t_min, t_max);
            let rev = list_best(seq![b, a], ray, t_min, t_max);
            fwd is Some && fwd->Some_0.0 == nearest && rev is Some && rev->Some_0.0 == nearest
        }),
{
    lemma_pair_nearest(a, b, ray, t_min, t_max);
    lemma_pair_nearest(b, a, ray, t_min, t_max);
}

/// A zero-fuzz metal whose mirror direction is exactly tangent to the
/// surface (its dot product with the normal is zero, or negative) absorbs
/// the ray, whatever the random sample was.
pub proof fn lemma_metal_tangent_absorbs(
    m: Metal,
    ray: Ray,
    rec: HitRecord,
    q: V3,
    r: Option<(Vec3, Ray)>,
)
    requires
        m.fuzz == 0,
        ray.direction@.len2() != 0,
        spec_reflect(ray.direction@.vunit(), rec.normal@).vdot(rec.normal@) <= 0,
        metal_scatter_ok(m, ray, rec, q, r),
    ensures
        r is None,
{
    lemma_fxm_zero(q.x);
    lemma_fxm_zero(q.y);
    lemma_fxm_zero(q.z);
    assert(q.vscale(0) == (V3 { x: 0, y: 0, z: 0 }));
    let refl = spec_reflect(ray.direction@.vunit(), rec.normal@);
    assert(refl.vadd(q.vscale(m.fuzz as int)) == refl);
}

/// At exact normal incidence (the normalized incoming direction exactly
/// opposite an exactly unit normal), refraction does not bend: the
/// refracted direction equals the normalized incoming direction.
pub proof fn lemma_refract_normal_incidence(v: V3, n: V3, ni: int)
    requires
        v.vunit() == n.vneg(),
        n.vdot(n) == FX_ONE as int,
    ensures
        spec_refract(v, n, ni) == Some(v.vunit()),
{
    let uv = v.vunit();
    lemma_fxm_neg(n.x, n.x);
    lemma_fxm_neg(n.y, n.y);
    lemma_fxm_neg(n.z, n.z);
    let dt = uv.vdot(n);
    assert(dt == -(FX_ONE as int));
    assert(iabs(dt) <= COS_LIMIT as int);
    lemma_fxm_neg(-(FX_ONE as int), FX_ONE as int);
    lemma_fxm_one(FX_ONE as int);
    assert(fxm(dt, dt) == FX_ONE as int);
    lemma_fxm_zero(fxm(ni, ni));
    let disc = FX_ONE as int - fxm(fxm(ni, ni), FX_ONE as int - fxm(dt, dt));
    assert(disc == FX_ONE as int);
    assert((FX_ONE as int) * (FX_ONE as int) == 1099511627776) by (nonlinear_arith);
    lemma_sqrt_unique(1099511627776, FX_ONE as int);
    assert(fxsqrt(disc) == FX_ONE as int);
    lemma_fxm_one(n.x);
    lemma_fxm_one(n.y);
    lemma_fxm_one(n.z);
    lemma_fxm_neg(n.x, FX_ONE as int);
    lemma_fxm_neg(n.y, FX_ONE as int);
    lemma_fxm_neg(n.z, FX_ONE as int);
    assert(n.vscale(dt) == n.vneg());
    assert(uv.vsub(n.vscale(dt)) == (V3 { x: 0, y: 0, z: 0 }));
    lemma_fxm_zero(ni);
    assert(uv.vsub(n.vscale(dt)).vscale(ni) == (V3 { x: 0, y: 0, z: 0 }));
    assert(n.vscale(fxsqrt(disc)) == n);
    assert(spec_refract(v, n, ni) == Some(uv));
}

} // verus!
