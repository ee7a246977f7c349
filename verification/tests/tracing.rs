use pathtracer::integrator::{color, T_EPS, T_FAR};
use pathtracer::material::{refract, schlick, Dielectric, Lambertian, Material, Metal};
use pathtracer::objects::{HitRecord, HittableList, Sphere};
use pathtracer::ray::Ray;
use pathtracer::sampling::{random_in_unit_sphere, random_unit_scalar};
use pathtracer::vec3::Vec3;
use pathtracer::FX_ONE;

fn fx(v: i64) -> i64 {
    v * FX_ONE
}

fn gray() -> Material {
    Material::Lambertian(Lambertian::new(Vec3::of(FX_ONE / 2)))
}

#[test]
fn test_sphere_head_on_hit() {
    // A sphere of radius r at the origin, a ray from (0, 0, 2r) toward the
    // origin: the hit is at t = r, at point (0, 0, r), with normal (0, 0, 1).
    let s = Sphere::new(Vec3::of(0), fx(1), gray());
    let ray = Ray::new(Vec3::new(0, 0, fx(2)), Vec3::new(0, 0, -fx(1)));
    let hit = s.hit(&ray, T_EPS, T_FAR).expect("head-on ray must hit");
    assert_eq!(hit.t, fx(1));
    assert_eq!(hit.p, Vec3::new(0, 0, fx(1)));
    assert_eq!(hit.normal, Vec3::new(0, 0, fx(1)));
}

#[test]
fn test_tangent_ray_misses() {
    // The ray's closest approach to the center equals the radius exactly:
    // the discriminant is zero and the test demands strictly positive.
    let s = Sphere::new(Vec3::of(0), fx(1), gray());
    let ray = Ray::new(Vec3::new(0, fx(1), fx(2)), Vec3::new(0, 0, -fx(1)));
    assert!(s.hit(&ray, T_EPS, T_FAR).is_none());
}

#[test]
fn test_scene_nearest_of_overlapping() {
    // Two overlapping spheres along the ray; the scene reports the smaller
    // individual t whichever order they were inserted in.
    let near = Sphere::new(Vec3::new(0, 0, fx(4)), fx(1), gray());
    let far = Sphere::new(Vec3::new(0, 0, fx(6)), fx(2), gray());
    let ray = Ray::new(Vec3::of(0), Vec3::new(0, 0, fx(1)));

    let mut scene_a = HittableList::new();
    scene_a.add(near);
    scene_a.add(far);
    let mut scene_b = HittableList::new();
    scene_b.add(far);
    scene_b.add(near);

    let ta = near.hit(&ray, T_EPS, T_FAR).unwrap().t;
    let tb = far.hit(&ray, T_EPS, T_FAR).unwrap().t;
    assert_eq!(ta, fx(3));
    assert_eq!(tb, fx(4));

    let ha = scene_a.hit(&ray, T_EPS, T_FAR).unwrap();
    let hb = scene_b.hit(&ray, T_EPS, T_FAR).unwrap();
    assert_eq!(ha.t, fx(3));
    assert_eq!(hb.t, fx(3));
}

#[test]
fn test_ground_sphere_hit() {
    // A large ground sphere far below the origin, hit straight down.
    let ground = Sphere::new(Vec3::new(0, -fx(1000), 0), fx(1000), gray());
    let ray = Ray::new(Vec3::new(0, fx(2), 0), Vec3::new(0, -fx(1), 0));
    let hit = ground.hit(&ray, T_EPS, T_FAR).expect("must hit the ground");
    assert_eq!(hit.t, fx(2));
    assert_eq!(hit.p, Vec3::of(0));
    assert_eq!(hit.normal, Vec3::new(0, fx(1), 0));
}

#[test]
fn test_metal_tangent_absorbed() {
    // fuzz = 0 and a reflected direction exactly tangent to the surface
    // (its dot product with the normal is zero): absorbed.
    let metal = Metal::new(Vec3::of(FX_ONE / 2), 0);
    let rec = HitRecord {
        t: fx(1),
        p: Vec3::of(0),
        normal: Vec3::new(0, fx(1), 0),
        material: Material::Metal(metal),
    };
    let ray = Ray::new(Vec3::new(-fx(1), 0, 0), Vec3::new(fx(1), 0, 0));
    let mut rng = rand::rng();
    assert!(metal.scatter(&ray, &rec, &mut rng).is_none());
}

#[test]
fn test_metal_fuzz_clamp() {
    // The constructor's clamp: [0, 1) is kept, everything else (negative
    // values included) is forced to one.
    let albedo = Vec3::of(FX_ONE / 2);
    assert_eq!(Metal::new(albedo, -fx(1)).fuzz, FX_ONE);
    assert_eq!(Metal::new(albedo, fx(2)).fuzz, FX_ONE);
    assert_eq!(Metal::new(albedo, FX_ONE).fuzz, FX_ONE);
    assert_eq!(Metal::new(albedo, FX_ONE / 4).fuzz, FX_ONE / 4);
    assert_eq!(Metal::new(albedo, 0).fuzz, 0);
}

#[test]
fn test_schlick_normal_incidence() {
    // cosine = 1 and n = 1.5: r0 = ((1 - 1.5) / (1 + 1.5))^2, about 0.04,
    // and the (1 - cosine)^5 term vanishes.
    let s = schlick(FX_ONE, 3 * FX_ONE / 2);
    let real = s as f64 / FX_ONE as f64;
    assert!((real - 0.04).abs() < 1e-3, "schlick at normal incidence: {}", real);
}

#[test]
fn test_refract_normal_incidence_parallel() {
    // Struck head on, the refracted direction is parallel to the incoming
    // one: no bending.
    let v = Vec3::new(0, 0, -fx(1));
    let n = Vec3::new(0, 0, fx(1));
    // 1 / 1.5 in fixed point, the relative index entering the medium.
    let ni = 699050;
    let refracted = refract(&v, &n, ni).expect("no total internal reflection head on");
    assert_eq!(refracted, v);
}

#[test]
fn test_dielectric_always_scatters() {
    let glass = Dielectric::new(3 * FX_ONE / 2);
    let rec = HitRecord {
        t: fx(1),
        p: Vec3::of(0),
        normal: Vec3::new(0, 0, fx(1)),
        material: Material::Dielectric(glass),
    };
    let ray = Ray::new(Vec3::new(0, 0, fx(2)), Vec3::new(0, 0, -fx(1)));
    let mut rng = rand::rng();
    let (attenuation, scattered) = glass.scatter(&ray, &rec, &mut rng).expect("never absorbs");
    assert_eq!(attenuation, Vec3::of(FX_ONE));
    assert_eq!(scattered.origin, rec.p);
}

#[test]
fn test_lambertian_always_scatters() {
    let diffuse = Lambertian::new(Vec3::new(FX_ONE / 4, FX_ONE / 2, FX_ONE));
    let rec = HitRecord {
        t: fx(1),
        p: Vec3::new(0, 0, fx(1)),
        normal: Vec3::new(0, 0, fx(1)),
        material: Material::Lambertian(diffuse),
    };
    let ray = Ray::new(Vec3::new(0, 0, fx(2)), Vec3::new(0, 0, -fx(1)));
    let mut rng = rand::rng();
    let (attenuation, scattered) = diffuse.scatter(&ray, &rec, &mut rng).expect("never absorbs");
    assert_eq!(attenuation, diffuse.albedo);
    assert_eq!(scattered.origin, rec.p);
    // The scattered direction is normal + q with q inside the unit ball,
    // so its z component stays strictly positive.
    assert!(scattered.direction.z() > 0);
}

#[test]
fn test_integrator_depth_cutoff() {
    // A ray bouncing forever between two facing zero-fuzz mirrors: the
    // depth cutoff ends the loop and the contribution is black.
    let mirror = Material::Metal(Metal::new(Vec3::of(FX_ONE / 2), 0));
    let mut scene = HittableList::new();
    scene.add(Sphere::new(Vec3::new(0, 0, fx(4)), fx(1), mirror));
    scene.add(Sphere::new(Vec3::new(0, 0, -fx(4)), fx(1), mirror));
    let ray = Ray::new(Vec3::of(0), Vec3::new(0, 0, fx(1)));
    let mut rng = rand::rng();
    assert_eq!(color(ray, &scene, &mut rng), Vec3::of(0));
}

#[test]
fn test_sky_color_straight_up() {
    // A ray pointing straight up through an empty scene: t = 1 and the
    // color is exactly the sky's zenith blue with neutral throughput.
    let scene = HittableList::new();
    let ray = Ray::new(Vec3::of(0), Vec3::new(0, fx(1), 0));
    let mut rng = rand::rng();
    let c = color(ray, &scene, &mut rng);
    assert_eq!(c, Vec3::new(FX_ONE / 2, 734003, FX_ONE));
}

#[test]
fn test_sky_gradient_horizontal() {
    // A horizontal escaping ray blends white and blue evenly.
    let scene = HittableList::new();
    let ray = Ray::new(Vec3::of(0), Vec3::new(fx(1), 0, 0));
    let mut rng = rand::rng();
    let c = color(ray, &scene, &mut rng);
    // t = 0.5: each channel is (channel + 1) / 2.
    assert_eq!(c, Vec3::new(786432, 891289, FX_ONE));
}

#[test]
fn test_color_channels_in_unit_range() {
    let mut scene = HittableList::new();
    scene.add(Sphere::new(Vec3::new(0, 0, -fx(2)), fx(1), gray()));
    scene.add(
        Sphere::new(
            Vec3::new(0, -fx(101), -fx(2)),
            fx(100),
            Material::Metal(Metal::new(Vec3::of(FX_ONE / 2), FX_ONE / 4)),
        ),
    );
    let mut rng = rand::rng();
    for i in 0..50 {
        let dir = Vec3::new((i - 25) * FX_ONE / 25, -FX_ONE / 4, -fx(1));
        let c = color(Ray::new(Vec3::of(0), dir), &scene, &mut rng);
        for ch in [c.x(), c.y(), c.z()] {
            assert!(0 <= ch && ch <= FX_ONE);
        }
    }
}

#[test]
fn test_random_unit_scalar_range() {
    let mut rng = rand::rng();
    for _ in 0..200 {
        let r = random_unit_scalar(&mut rng);
        assert!(0 <= r && r < FX_ONE);
    }
}

#[test]
fn test_random_in_unit_sphere_inside() {
    let mut rng = rand::rng();
    for _ in 0..200 {
        let p = random_in_unit_sphere(&mut rng);
        assert!(p.squared_length() < FX_ONE);
    }
}

#[test]
fn test_point_at_parameter() {
    let ray = Ray::new(Vec3::new(fx(1), 0, 0), Vec3::new(0, fx(2), 0));
    assert_eq!(ray.point_at_parameter(FX_ONE / 2), Vec3::new(fx(1), fx(1), 0));
}

#[test]
fn test_zero_radius_never_hits() {
    // The degenerate radius boundary: a sphere of radius zero registers no
    // valid hit.
    let s = Sphere::new(Vec3::of(0), 0, gray());
    let ray = Ray::new(Vec3::new(0, 0, fx(2)), Vec3::new(0, 0, -fx(1)));
    assert!(s.hit(&ray, T_EPS, T_FAR).is_none());
}

#[test]
fn test_negative_radius_flips_normal() {
    // A negative radius intersects exactly like a positive one (only the
    // squared radius enters the quadratic) but flips the normal inward,
    // the trick behind hollow glass spheres.
    let s = Sphere::new(Vec3::of(0), -fx(1), gray());
    let ray = Ray::new(Vec3::new(0, 0, fx(2)), Vec3::new(0, 0, -fx(1)));
    let hit = s.hit(&ray, T_EPS, T_FAR).expect("negative radius still hits");
    assert_eq!(hit.t, fx(1));
    assert_eq!(hit.p, Vec3::new(0, 0, fx(1)));
    assert_eq!(hit.normal, Vec3::new(0, 0, -fx(1)));
}

#[test]
fn test_make_unit_vector_in_place() {
    let mut v = Vec3::new(0, 0, fx(2));
    v.make_unit_vector();
    assert_eq!(v, Vec3::new(0, 0, fx(1)));

    // Every component is divided by the one initial length, so the result
    // equals unit_vector; on a diagonal vector all components stay equal.
    let mut w = Vec3::of(fx(1));
    w.make_unit_vector();
    assert_eq!(w, Vec3::of(fx(1)).unit_vector());
    assert_eq!(w.x(), w.y());
    assert_eq!(w.y(), w.z());
}
