use pathtracer::vec3::Vec3;
use pathtracer::FX_ONE;

fn fx(v: i64) -> i64 {
    v * FX_ONE
}

#[test]
fn test_cross_product() {
    assert_eq!(
        Vec3::new(fx(2), fx(3), fx(4)).cross(&Vec3::new(fx(5), fx(6), fx(7))),
        Vec3::new(fx(-3), fx(6), fx(-3))
    );
}

#[test]
fn test_dot_product() {
    assert_eq!(
        Vec3::new(fx(-12), fx(16), fx(0)).dot(&Vec3::new(fx(12), fx(9), fx(0))),
        fx(0)
    );
}

#[test]
fn test_add() {
    assert_eq!(Vec3::of(fx(2)).add(&Vec3::of(fx(2))), Vec3::of(fx(4)));
}

#[test]
fn test_getters() {
    let a = Vec3::new(fx(1), fx(2), fx(3));

    assert_eq!(a.x(), fx(1));

    assert_eq!(a.y(), fx(2));

    assert_eq!(a.z(), fx(3));

    assert_eq!(a.r(), fx(1));

    assert_eq!(a.g(), fx(2));

    assert_eq!(a.b(), fx(3));
}

#[test]
fn test_multiply() {
    assert_eq!(Vec3::of(fx(3)).mul(&Vec3::of(fx(3))), Vec3::of(fx(9)));

    assert_eq!(Vec3::of(fx(3)).scale(fx(3)), Vec3::of(fx(9)));

    assert_eq!(Vec3::of(fx(3)).scale(fx(2)), Vec3::of(fx(6)));

    assert_eq!(Vec3::of(fx(3)).scale(fx(2)), Vec3::of(fx(6)));
}

#[test]
fn test_negation() {
    assert_eq!(Vec3::of(fx(2)).neg(), Vec3::of(fx(-2)));
}

#[test]
fn test_divide() {
    assert_eq!(Vec3::of(fx(3)).div(&Vec3::of(fx(3))), Vec3::of(fx(1)));

    assert_eq!(Vec3::of(fx(3)).scale_div(fx(3)), Vec3::of(fx(1)));

    assert_eq!(Vec3::of(fx(6)).scale_div(fx(2)), Vec3::of(fx(3)));

    assert_eq!(Vec3::of(fx(2)).recip_scale(fx(6)), Vec3::of(fx(3)));
}

#[test]
fn test_subtract() {
    assert_eq!(Vec3::of(fx(6)).sub(&Vec3::of(fx(3))), Vec3::of(fx(3)));
}

#[test]
fn test_length() {
    let len = Vec3::new(fx(3), fx(2), fx(1)).length();
    assert_eq!(
        (len as f64 / FX_ONE as f64 * 1000.).round() / 1000.,
        3.742
    )
}

#[test]
fn test_unit_vector() {
    let u = Vec3::new(fx(2), fx(3), fx(4)).unit_vector();
    let round4 = |c: i64| (c as f64 / FX_ONE as f64 * 10000.).round() / 10000.;
    assert_eq!(
        (round4(u.x()), round4(u.y()), round4(u.z())),
        (0.3714, 0.5571, 0.7428)
    );
}

#[test]
fn test_operation_assign() {
    let mut a = Vec3::of(fx(3));

    assert_eq!(a, Vec3::of(fx(3)));

    a.scale_div_assign(fx(3));

    assert_eq!(a, Vec3::of(fx(1)));

    a.scale_assign(fx(3));

    assert_eq!(a, Vec3::of(fx(3)));

    a.add_assign(&Vec3::of(fx(7)));

    assert_eq!(a, Vec3::of(fx(10)));

    a.sub_assign(&Vec3::of(fx(5)));

    assert_eq!(a, Vec3::of(fx(5)));
}

#[test]
fn test_map() {
    let mut a = Vec3::of(fx(3));
    a = a.map(|x| x + fx(3));

    assert_eq!(a, Vec3::of(fx(6)));
}
