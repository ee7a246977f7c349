//! The radiance integrator: follows a ray through the scene, multiplying a
//! throughput color by each bounce's attenuation, until the path is
//! absorbed, escapes to the sky gradient, or reaches the depth cutoff.
//!
//! The loop is bounded by `MAX_DEPTH`, so Verus proves it terminates. Its
//! whole behaviour is pinned by `trace_color`: the returned color equals
//! the trace determined by some admissible per-bounce sample sequence —
//! black on absorption, the depth cutoff or an envelope exit, and the
//! throughput times the sky gradient of the escaping ray otherwise.

use vstd::prelude::*;

use crate::fx::{fxm, lemma_fxm_bound, lemma_fxm_one, lemma_fxm_square_nonneg,
    lemma_fxm_unit_interval, lemma_fxm_zero, lemma_sqrt_pos, FX_ONE};
use crate::material::{
    albedo_wf, dielectric_scatter_ok, in_ball, lambertian_scatter_ok, metal_scatter_ok,
    sample_wf, scatter_rel, scatter_spec, Material, Sample,
};
use crate::objects::{
    geometry_in_bounds, hit_normal, lemma_list_best_member, list_best, list_hit_matches,
    HittableList, Sphere,
};
use crate::ray::{spec_point_at, Ray};
use crate::vec3::{lemma_dot_bound, lemma_vunit_bound, V3, Vec3};
use crate::{DIR_MAX, NORM_MAX, SCENE_MAX};

verus! {

/// The hard depth cutoff of a traced path.
pub const MAX_DEPTH: u32 = 50;

/// The parametric lower bound of every scene query: a small positive
/// epsilon that suppresses self-intersection at the scattering point.
pub const T_EPS: i64 = 1024;

/// The parametric upper bound of every scene query: the far sentinel.
pub const T_FAR: i64 = 1099511627776;

/// Half in fixed point, the sky gradient's blend coefficient.
pub const SKY_HALF: i64 = 524288;

/// The green channel of the sky's horizon-to-zenith color (0.7, to the
/// nearest representable fixed-point value).
pub const SKY_G: i64 = 734003;

/// A scene the tracer is verified for: geometry within the numeric
/// envelope, every material within its verified ranges.
pub open spec fn scene_wf(objs: Seq<Sphere>) -> bool {
    &&& geometry_in_bounds(objs)
    &&& forall|i: int| 0 <= i < objs.len() ==> (#[trigger] objs[i]).material.wf()
}

/// Clamps a scalar into `[-1, 1]`; the unit-direction component it is
/// applied to can leave that interval only through truncation.
pub open spec fn clamp_unit(y: int) -> int {
    if y > FX_ONE as int {
        FX_ONE as int
    } else if y < -FX_ONE as int {
        -FX_ONE as int
    } else {
        y
    }
}

/// The sky blend parameter: half of (one plus the unit direction's height).
pub open spec fn sky_t(dir: V3) -> int {
    fxm(SKY_HALF as int, clamp_unit(dir.vunit().y) + FX_ONE as int)
}

/// The sky gradient a ray escapes into: white at the horizon blended toward
/// sky blue at the zenith. A direction without a length yields black.
pub open spec fn spec_sky(dir: V3) -> V3 {
    if dir.len2() == 0 {
        V3 { x: 0, y: 0, z: 0 }
    } else {
        let t = sky_t(dir);
        (V3 { x: FX_ONE as int, y: FX_ONE as int, z: FX_ONE as int }).vscale(
            FX_ONE as int - t,
        ).vadd((V3 { x: SKY_HALF as int, y: SKY_G as int, z: FX_ONE as int }).vscale(t))
    }
}

/// A neutral (white) throughput.
pub open spec fn v3_white() -> V3 {
    V3 { x: FX_ONE as int, y: FX_ONE as int, z: FX_ONE as int }
}

/// Black: the color of an absorbed, cut-off or out-of-envelope path.
pub open spec fn v3_black() -> V3 {
    V3 { x: 0, y: 0, z: 0 }
}

/// The vector with these exact components (they must be representable).
pub open spec fn mk_vec3(v: V3) -> Vec3 {
    Vec3 { x: v.x as i64, y: v.y as i64, z: v.z as i64 }
}

/// The ray with these exact origin and direction components.
pub open spec fn mk_ray(o: V3, d: V3) -> Ray {
    Ray { origin: mk_vec3(o), direction: mk_vec3(d) }
}

/// Every sample of a sequence admissible.
pub open spec fn all_samples_wf(samples: Seq<Sample>) -> bool {
    forall|i: int| 0 <= i < samples.len() ==> sample_wf(#[trigger] samples[i])
}

/// The sample used to pad a trace that ended before its depth budget.
pub open spec fn sample_fill() -> Sample {
    Sample { q: V3 { x: 0, y: 0, z: 0 }, u: 0 }
}

/// The color of one traced path, fully determined by the scene, the ray,
/// the running throughput and one sample per remaining bounce: black when
/// the bounce budget is exhausted (the depth cutoff); on a miss, the
/// throughput times the sky gradient; on a hit, black if the surface
/// normal leaves the envelope, the material absorbs, or the scattered ray
/// leaves the envelope, and otherwise the trace of the scattered ray with
/// the throughput multiplied by the attenuation.
pub open spec fn trace_color(
    objs: Seq<Sphere>,
    ray: Ray,
    throughput: V3,
    samples: Seq<Sample>,
) -> V3
    decreases samples.len(),
{
    if samples.len() == 0 {
        v3_black()
    } else {
        match list_best(objs, ray, T_EPS as int, T_FAR as int) {
            None => throughput.vmul(spec_sky(ray.direction@)),
            Some(ts) => {
                let sph = ts.1;
                let p = spec_point_at(ray, ts.0);
                let n = hit_normal(sph, ray, ts.0);
                if !n.in_cube(NORM_MAX as int) {
                    v3_black()
                } else {
                    match scatter_spec(sph.material, ray.direction@, p, n, samples[0]) {
                        None => v3_black(),
                        Some(av) => {
                            if !av.1.in_cube(DIR_MAX as int) || !p.in_cube(SCENE_MAX as int) {
                                v3_black()
                            } else {
                                trace_color(
                                    objs,
                                    mk_ray(p, av.1),
                                    throughput.vmul(av.0),
                                    samples.drop_first(),
                                )
                            }
                        },
                    }
                }
            },
        }
    }
}

/// The color `c` is the trace of `ray` through `objs` under some full,
/// admissible sample sequence (one sample per allowed bounce).
pub open spec fn traced(objs: Seq<Sphere>, ray: Ray, samples: Seq<Sample>, c: V3) -> bool {
    &&& samples.len() == MAX_DEPTH as int + 1
    &&& all_samples_wf(samples)
    &&& c == trace_color(objs, ray, v3_white(), samples)
}

/// The padding sample is admissible.
proof fn lemma_fill_wf()
    ensures
        sample_wf(sample_fill()),
{
    lemma_fxm_zero(0);
}

/// A sequence of padding samples, all admissible.
proof fn lemma_fill_seq_wf(n: nat)
    ensures
        Seq::new(n, |i: int| sample_fill()).len() == n,
        all_samples_wf(Seq::new(n, |i: int| sample_fill())),
{
    lemma_fill_wf();
}

/// Multiplying colors with channels in `[0, 1]` stays in `[0, 1]`.
pub proof fn lemma_vmul_unit(a: V3, b: V3)
    requires
        albedo_wf(a),
        albedo_wf(b),
    ensures
        albedo_wf(a.vmul(b)),
        a.vmul(b).fits(),
{
    lemma_fxm_unit_interval(a.x, b.x);
    lemma_fxm_unit_interval(a.y, b.y);
    lemma_fxm_unit_interval(a.z, b.z);
}

/// The color arriving along a ray: queries the scene for the nearest hit,
/// scatters at the hit material, multiplies the throughput by its
/// attenuation, and repeats until absorption (black), escape (the sky
/// gradient scaled by the throughput) or the depth cutoff (black). Rays
/// whose bounces leave the numeric envelope also contribute black. The
/// result is exactly `trace_color` under the samples the generator drew.
pub fn color(ray: Ray, world: &HittableList, rng: &mut rand::rngs::ThreadRng) -> (c: Vec3)
    requires
        scene_wf(world.list@),
        crate::objects::ray_in_bounds(ray),
    ensures
        albedo_wf(c@),
        exists|samples: Seq<Sample>| #[trigger] traced(world.list@, ray, samples, c@),
        list_best(world.list@, ray, T_EPS as int, T_FAR as int) is None ==> c@ == spec_sky(
            ray.direction@,
        ),
{
    let mut cur = ray;
    let mut mult = Vec3::of(FX_ONE);
    let mut depth: u32 = 0;
    let ghost mut taken: Seq<Sample> = Seq::empty();

    proof {
        assert forall|rest: Seq<Sample>|
            rest.len() == MAX_DEPTH as int + 1 - depth as int && all_samples_wf(
                rest,
            ) implies #[trigger] trace_color(world.list@, cur, mult@, rest) == trace_color(
            world.list@,
            ray,
            v3_white(),
            taken.add(rest),
        ) by {
            assert(taken.add(rest) =~= rest);
        }
    }

    loop
        invariant
            scene_wf(world.list@),
            crate::objects::ray_in_bounds(cur),
            albedo_wf(mult@),
            depth <= MAX_DEPTH + 1,
            taken.len() == depth as int,
            all_samples_wf(taken),
            depth == 0 ==> cur == ray && mult@ == v3_white(),
            depth > 0 ==> list_best(world.list@, ray, T_EPS as int, T_FAR as int) is Some,
            forall|rest: Seq<Sample>|
                rest.len() == MAX_DEPTH as int + 1 - depth as int && all_samples_wf(rest)
                    ==> #[trigger] trace_color(world.list@, cur, mult@, rest) == trace_color(
                    world.list@,
                    ray,
                    v3_white(),
                    taken.add(rest),
                ),
        decreases MAX_DEPTH + 1 - depth,
    {
        if depth > MAX_DEPTH {
            proof {
                let rest = Seq::new((MAX_DEPTH as int + 1 - depth as int) as nat, |i: int|
                    sample_fill());
                lemma_fill_seq_wf(rest.len());
                assert(rest.len() == 0);
                assert(trace_color(world.list@, cur, mult@, rest) == v3_black());
                assert(traced(world.list@, ray, taken.add(rest), v3_black()));
            }
            return Vec3::of(0);
        }

        let found = world.hit(&cur, T_EPS, T_FAR);
        match found {
            Some(record) => {
                let ghost sph = choose|s: Sphere|
                    list_hit_matches(world.list@, cur, T_EPS as int, T_FAR as int, record, s);
                proof {
                    lemma_list_best_member(world.list@, cur, T_EPS as int, T_FAR as int);
                    let i = choose|i: int|
                        0 <= i < world.list@.len() && world.list@[i] == sph;
                    assert(world.list@[i].material.wf());
                    assert(record.material.wf());
                    assert(record.p@.in_cube(crate::POS_MAX as int));
                }
                if !record.normal.in_cube_check(NORM_MAX) {
                    proof {
                        let rest = Seq::new((MAX_DEPTH as int + 1 - depth as int) as nat, |i: int|
                            sample_fill());
                        lemma_fill_seq_wf(rest.len());
                        assert(trace_color(world.list@, cur, mult@, rest) == v3_black());
                        assert(traced(world.list@, ray, taken.add(rest), v3_black()));
                    }
                    return Vec3::of(0);
                }
                let scattered = record.material.scatter(&cur, &record, rng);
                let ghost s_star = choose|s: Sample|
                    sample_wf(s) && scatter_rel(record.material, cur, record, s, scattered);
                match scattered {
                    Some(ar) => {
                        if !ar.1.direction.in_cube_check(DIR_MAX) || !ar.1.origin.in_cube_check(
                            SCENE_MAX,
                        ) {
                            proof {
                                let fill = Seq::new(
                                    (MAX_DEPTH as int - depth as int) as nat,
                                    |i: int| sample_fill(),
                                );
                                lemma_fill_seq_wf(fill.len());
                                let rest = seq![s_star].add(fill);
                                assert(rest[0] == s_star);
                                assert(all_samples_wf(rest));
                                assert(trace_color(world.list@, cur, mult@, rest) == v3_black());
                                assert(traced(world.list@, ray, taken.add(rest), v3_black()));
                            }
                            return Vec3::of(0);
                        }
                        proof {
                            match record.material {
                                Material::Lambertian(m) => {
                                    let q = choose|q: V3|
                                        in_ball(q) && lambertian_scatter_ok(
                                            m,
                                            record,
                                            q,
                                            scattered,
                                        );
                                    assert(ar.0 == m.albedo);
                                },
                                Material::Metal(m) => {
                                    let q = choose|q: V3|
                                        in_ball(q) && metal_scatter_ok(
                                            m,
                                            cur,
                                            record,
                                            q,
                                            scattered,
                                        );
                                    assert(ar.0 == m.albedo);
                                },
                                Material::Dielectric(m) => {
                                    let u = choose|u: int|
                                        0 <= u < FX_ONE as int && dielectric_scatter_ok(
                                            m,
                                            cur,
                                            record,
                                            u,
                                            scattered,
                                        );
                                    assert(albedo_wf(ar.0@));
                                },
                            }
                            lemma_vmul_unit(mult@, ar.0@);
                        }
                        let ghost old_cur = cur;
                        let ghost old_mult = mult@;
                        let ghost old_taken = taken;
                        mult = mult.mul(&ar.0);
                        cur = ar.1;
                        depth = depth + 1;
                        proof {
                            taken = old_taken.push(s_star);
                            let av = scatter_spec(
                                record.material,
                                old_cur.direction@,
                                record.p@,
                                record.normal@,
                                s_star,
                            )->Some_0;
                            assert(mk_ray(record.p@, av.1) == cur);
                            assert forall|rest2: Seq<Sample>|
                                rest2.len() == MAX_DEPTH as int + 1 - depth as int
                                    && all_samples_wf(rest2) implies #[trigger] trace_color(
                                world.list@,
                                cur,
                                mult@,
                                rest2,
                            ) == trace_color(world.list@, ray, v3_white(), taken.add(rest2)) by {
                                let rest = seq![s_star].add(rest2);
                                assert(rest[0] == s_star);
                                assert(rest.drop_first() =~= rest2);
                                assert(all_samples_wf(rest)) by {
                                    assert forall|i: int|
                                        0 <= i < rest.len() implies sample_wf(
                                        #[trigger] rest[i],
                                    ) by {
                                        if i > 0 {
                                            assert(rest[i] == rest2[i - 1]);
                                        }
                                    }
                                }
                                assert(rest.len() == MAX_DEPTH as int + 1 - old_taken.len());
                                assert(trace_color(world.list@, old_cur, old_mult, rest)
                                    == trace_color(
                                    world.list@,
                                    ray,
                                    v3_white(),
                                    old_taken.add(rest),
                                ));
                                assert(old_taken.add(rest) =~= taken.add(rest2));
                                assert(trace_color(world.list@, old_cur, old_mult, rest)
                                    == trace_color(world.list@, cur, mult@, rest2));
                            }
                        }
                    },
                    None => {
                        proof {
                            let fill = Seq::new((MAX_DEPTH as int - depth as int) as nat, |i: int|
                                sample_fill());
                            lemma_fill_seq_wf(fill.len());
                            let rest = seq![s_star].add(fill);
                            assert(rest[0] == s_star);
                            assert(all_samples_wf(rest));
                            assert(trace_color(world.list@, cur, mult@, rest) == v3_black());
                            assert(traced(world.list@, ray, taken.add(rest), v3_black()));
                        }
                        return Vec3::of(0);
                    },
                }
            },
            None => {
                proof {
                    lemma_dot_bound(cur.direction@, cur.direction@, DIR_MAX as int, DIR_MAX as int);
                    lemma_fxm_square_nonneg(cur.direction@.x);
                    lemma_fxm_square_nonneg(cur.direction@.y);
                    lemma_fxm_square_nonneg(cur.direction@.z);
                }
                let slen = cur.direction().squared_length();
                if slen == 0 {
                    proof {
                        let rest = Seq::new((MAX_DEPTH as int + 1 - depth as int) as nat, |i: int|
                            sample_fill());
                        lemma_fill_seq_wf(rest.len());
                        lemma_fxm_zero(mult@.x);
                        lemma_fxm_zero(mult@.y);
                        lemma_fxm_zero(mult@.z);
                        assert(mult@.vmul(spec_sky(cur.direction@)) == v3_black());
                        assert(trace_color(world.list@, cur, mult@, rest) == v3_black());
                        assert(traced(world.list@, ray, taken.add(rest), v3_black()));
                    }
                    return Vec3::of(0);
                }
                proof {
                    crate::fx::lemma_sqrt_floor(cur.direction@.len2() * FX_ONE as int);
                    lemma_sqrt_pos(cur.direction@.len2() * FX_ONE as int);
                    lemma_vunit_bound(cur.direction@, DIR_MAX as int);
                }
                let unit_direction = cur.direction().unit_vector();
                let yy = unit_direction.y();
                let yc = if yy > FX_ONE {
                    FX_ONE
                } else if yy < -FX_ONE {
                    -FX_ONE
                } else {
                    yy
                };
                proof {
                    lemma_fxm_bound(SKY_HALF as int, yc as int + FX_ONE as int, 524288, 2097152);
                    lemma_fxm_unit_interval(SKY_HALF as int, yc as int + FX_ONE as int);
                }
                let t = crate::fx::fx_mul(SKY_HALF, yc + FX_ONE);
                let white = Vec3::of(FX_ONE);
                let blue = Vec3::new(SKY_HALF, SKY_G, FX_ONE);
                proof {
                    lemma_fxm_one(FX_ONE as int - t as int);
                    lemma_fxm_unit_interval(SKY_HALF as int, t as int);
                    lemma_fxm_unit_interval(SKY_G as int, t as int);
                    lemma_fxm_unit_interval(FX_ONE as int, t as int);
                    lemma_fxm_unit_interval(FX_ONE as int - t as int, FX_ONE as int);
                }
                let blend = white.scale(FX_ONE - t).add(&blue.scale(t));
                proof {
                    assert(albedo_wf(blend@));
                    lemma_vmul_unit(mult@, blend@);
                    assert(blend@ == spec_sky(cur.direction@));
                }
                let out = mult.mul(&blend);
                proof {
                    let rest = Seq::new((MAX_DEPTH as int + 1 - depth as int) as nat, |i: int|
                        sample_fill());
                    lemma_fill_seq_wf(rest.len());
                    assert(trace_color(world.list@, cur, mult@, rest) == mult@.vmul(
                        spec_sky(cur.direction@),
                    ));
                    assert(traced(world.list@, ray, taken.add(rest), out@));
                    if depth == 0 {
                        lemma_fxm_one(blend@.x);
                        lemma_fxm_one(blend@.y);
                        lemma_fxm_one(blend@.z);
                        assert(out@ == spec_sky(ray.direction@));
                    }
                }
                return out;
            },
        }
    }
}

} // verus!
