use raytracer::fixed::{fx_div, fx_mul, sqrt_fx, SCALE};
use raytracer::ppm::Image;
use raytracer::rng::SampleRng;
use raytracer::rtweekend::{clamp, degrees_to_radians, random, random_vec_in_unit_sphere};
use raytracer::vec3::Vec3;

#[test]
fn fixed_point_products_and_quotients() {
    // 1.5 * 2.0 == 3.0 and -1.5 * 2.0 == -3.0 (truncation toward zero).
    assert_eq!(fx_mul(98304, 131072), 196608);
    assert_eq!(fx_mul(-98304, 131072), -196608);
    // 3.0 / 2.0 == 1.5, 3.0 / -2.0 == -1.5.
    assert_eq!(fx_div(196608, 131072), 98304);
    assert_eq!(fx_div(196608, -131072), -98304);
    // sqrt(4.0) == 2.0 exactly; sqrt(2.0) truncates just below its real value.
    assert_eq!(sqrt_fx(4 * SCALE), 2 * SCALE);
    let root2 = sqrt_fx(2 * SCALE);
    assert!((root2 - 92681).abs() <= 1, "sqrt(2) was {root2}");
}

#[test]
fn clamp_picks_the_nearer_bound() {
    assert_eq!(clamp(5, 0, 3), 3);
    assert_eq!(clamp(-1, 0, 3), 0);
    assert_eq!(clamp(2, 0, 3), 2);
    assert_eq!(clamp(70000, 0, SCALE), SCALE);
}

#[test]
fn ninety_degrees_in_radians() {
    // 90 * pi / 180 in fixed point: 205887 * 90 / 180, truncated.
    assert_eq!(degrees_to_radians(90 * SCALE), 102943);
}

#[test]
fn unit_vector_length_is_one_within_tolerance() {
    // An axis vector normalizes exactly.
    let axis = Vec3::new(SCALE, 0, 0);
    assert_eq!(axis.normalized(), Vec3::new(SCALE, 0, 0));
    assert_eq!(axis.normalized().length(), SCALE);
    // A 3-4-5 direction and a long skewed one normalize to unit length
    // within fixed-point tolerance.
    for v in [
        Vec3::new(39322, 52429, 0),
        Vec3::new(3 * SCALE, 4 * SCALE, 0),
        Vec3::new(-7 * SCALE, 2 * SCALE, 5 * SCALE),
        Vec3::new(1000 * SCALE, -3 * SCALE, 17),
    ] {
        let len = v.normalized().length();
        assert!(
            (len - SCALE).abs() <= 16,
            "normalized length was {len} for {v:?}"
        );
    }
}

#[test]
fn cross_product_is_orthogonal_within_tolerance() {
    let cases = [
        (Vec3::new(SCALE, 2 * SCALE, 3 * SCALE), Vec3::new(-32768, 16384, 81920)),
        (Vec3::new(SCALE, 0, 0), Vec3::new(0, SCALE, 0)),
        (Vec3::new(5 * SCALE, -SCALE, 98304), Vec3::new(-3 * SCALE, 49152, 7 * SCALE)),
    ];
    for (u, v) in cases {
        let c = Vec3::cross(&u, &v);
        let du = Vec3::dot(&c, &u);
        let dv = Vec3::dot(&c, &v);
        assert!(du.abs() <= 64, "dot(cross(u,v), u) was {du}");
        assert!(dv.abs() <= 64, "dot(cross(u,v), v) was {dv}");
    }
}

#[test]
fn right_handed_cross_product() {
    let x = Vec3::new(SCALE, 0, 0);
    let y = Vec3::new(0, SCALE, 0);
    assert_eq!(Vec3::cross(&x, &y), Vec3::new(0, 0, SCALE));
    assert_eq!(Vec3::cross(&y, &x), Vec3::new(0, 0, -SCALE));
}

#[test]
fn vector_arithmetic() {
    let a = Vec3::new3(SCALE, 2 * SCALE, -SCALE);
    let b = Vec3::new(32768, -SCALE, 16384);
    assert_eq!(a.add(b), Vec3::new(98304, SCALE, -49152));
    assert_eq!(a.sub(b), Vec3::new(32768, 3 * SCALE, -81920));
    assert_eq!(a.neg(), Vec3::new(-SCALE, -2 * SCALE, SCALE));
    assert_eq!(a.mul(2 * SCALE), Vec3::new(2 * SCALE, 4 * SCALE, -2 * SCALE));
    assert_eq!(a.div(2 * SCALE), Vec3::new(32768, SCALE, -32768));
    assert_eq!(a.x(), SCALE);
    assert_eq!(a.y(), 2 * SCALE);
    assert_eq!(a.z(), -SCALE);
    assert_eq!(a.length_squared(), 6 * SCALE);
    assert_eq!(Vec3::dot(&a, &b), 32768 - 2 * SCALE - 16384);
}

#[test]
fn seeded_streams_are_reproducible() {
    let mut a = SampleRng::from_seed(42);
    let mut b = SampleRng::from_seed(42);
    for _ in 0..32 {
        assert_eq!(a.next_u64(), b.next_u64());
    }
    let mut c = SampleRng::from_seed(43);
    let first_a = SampleRng::from_seed(42).next_u64();
    let first_c = c.next_u64();
    assert_ne!(first_a, first_c);
}

#[test]
fn gen_range_stays_in_range() {
    let mut rng = SampleRng::from_seed(7);
    for _ in 0..200 {
        let x = rng.gen_range(-SCALE, SCALE);
        assert!(-SCALE <= x && x < SCALE);
    }
}

#[test]
fn random_respects_its_bounds() {
    assert_eq!(random(5, 6), 5);
    for _ in 0..50 {
        let x = random(-3, 3);
        assert!(-3 <= x && x < 3);
    }
}

#[test]
fn random_vec_lands_inside_the_unit_sphere() {
    let mut rng = SampleRng::from_seed(11);
    for _ in 0..50 {
        let v = random_vec_in_unit_sphere(&mut rng);
        let ls = v.length_squared();
        assert!(1 <= ls && ls < SCALE, "length squared was {ls}");
    }
}

#[test]
fn sampler_advances_the_stream_deterministically() {
    // Two generators with equal seeds draw the same ball point and are
    // left at the same stream position afterwards.
    let mut a = SampleRng::from_seed(99);
    let mut b = SampleRng::from_seed(99);
    let va = random_vec_in_unit_sphere(&mut a);
    let vb = random_vec_in_unit_sphere(&mut b);
    assert_eq!(va, vb);
    assert_eq!(a.gen_range(0, 1000), b.gen_range(0, 1000));
}

#[test]
fn tangent_of_half_angle_tracks_the_real_value() {
    // tan(45 degrees) = 1; tan(10 degrees) = 0.17633 (11557 raw).
    let h90 = raytracer::camera::tan_half(102943);
    assert!((h90 - SCALE).abs() <= 16, "tan(45 deg) was {h90}");
    let h20 = raytracer::camera::tan_half(degrees_to_radians(20 * SCALE));
    assert!((h20 - 11557).abs() <= 16, "tan(10 deg) was {h20}");
}

#[test]
fn entropy_seeded_generator_draws_in_range() {
    let mut rng = SampleRng::from_entropy();
    for _ in 0..20 {
        let x = rng.gen_range(0, 10);
        assert!(0 <= x && x < 10);
    }
}

#[test]
fn image_stores_pixels_row_major() {
    let mut img: Image<(u8, u8, u8)> = Image::new(4, 3, (0, 0, 0));
    assert_eq!(img.width(), 4);
    assert_eq!(img.height(), 3);
    img.set_pixel(2, 1, (9, 8, 7));
    assert_eq!(img.pixel(2, 1), (9, 8, 7));
    assert_eq!(img.pixel(0, 0), (0, 0, 0));
    assert_eq!(img.pixel(3, 2), (0, 0, 0));
}
