use raytracer::camera::Camera;
use raytracer::fixed::SCALE;
use raytracer::hittable::HitRecord;
use raytracer::material::{Lambertian, Material};
use raytracer::ray::{Ray, T_LIMIT};
use raytracer::rng::SampleRng;
use raytracer::sphere::Sphere;
use raytracer::vec3::Vec3;
use raytracer::world::World;

#[test]
fn head_on_hit_enters_at_distance_minus_radius() {
    // Unit sphere at the origin, ray from (0,0,2) aimed at the center:
    // entry at t = 2 - 1 = 1, exactly representable.
    let sphere = Sphere::new(Vec3::new(0, 0, 0), SCALE);
    let ray = Ray::new(Vec3::new(0, 0, 2 * SCALE), Vec3::new(0, 0, -SCALE));
    let hit = sphere.is_hit(&ray, 0, T_LIMIT).expect("head-on ray must hit");
    assert_eq!(hit.t, SCALE);
    assert_eq!(hit.point, Vec3::new(0, 0, SCALE));
    assert_eq!(hit.normal, Vec3::new(0, 0, SCALE));
    assert!(hit.front_face);
}

#[test]
fn ray_offset_beyond_radius_misses() {
    let sphere = Sphere::new(Vec3::new(0, 0, 0), SCALE);
    // Perpendicular offset of 2 > radius 1: no hit.
    let ray = Ray::new(Vec3::new(2 * SCALE, 0, 2 * SCALE), Vec3::new(0, 0, -SCALE));
    assert!(sphere.is_hit(&ray, 0, T_LIMIT).is_none());
}

#[test]
fn exact_tangency_counts_as_a_hit() {
    // Grazing ray at height exactly one: the discriminant is zero and
    // the single root is reported, not discarded.
    let sphere = Sphere::new(Vec3::new(0, 0, 0), SCALE);
    let ray = Ray::new(Vec3::new(0, SCALE, 2 * SCALE), Vec3::new(0, 0, -SCALE));
    let hit = sphere.is_hit(&ray, 0, T_LIMIT).expect("tangent ray must hit once");
    assert_eq!(hit.t, 2 * SCALE);
    assert_eq!(hit.point, Vec3::new(0, SCALE, 0));
}

#[test]
fn recorded_normal_always_opposes_the_ray() {
    let sphere = Sphere::new(Vec3::new(0, 0, 0), SCALE);
    // From outside (front face) and from the center (back face).
    let outside = Ray::new(Vec3::new(0, 0, 2 * SCALE), Vec3::new(0, 0, -SCALE));
    let inside = Ray::new(Vec3::new(0, 0, 0), Vec3::new(0, 0, -SCALE));
    for (ray, expect_front) in [(outside, true), (inside, false)] {
        let hit = sphere.is_hit(&ray, 0, T_LIMIT).expect("must hit the sphere");
        assert_eq!(hit.front_face, expect_front);
        assert!(Vec3::dot(&ray.direction(), &hit.normal) <= 0);
    }
}

#[test]
fn negative_radius_flips_the_outward_normal() {
    let sphere = Sphere::new(Vec3::new(0, 0, 0), -SCALE);
    let ray = Ray::new(Vec3::new(0, 0, 2 * SCALE), Vec3::new(0, 0, -SCALE));
    let hit = sphere.is_hit(&ray, 0, T_LIMIT).expect("the surface is the same");
    // The outward normal is negated, so the hit reads as a back face,
    // and the stored normal still opposes the ray.
    assert!(!hit.front_face);
    assert_eq!(hit.normal, Vec3::new(0, 0, SCALE));
}

#[test]
fn hit_record_orients_the_normal() {
    let ray = Ray::new(Vec3::new(0, 0, 0), Vec3::new(0, 0, -SCALE));
    let toward = HitRecord::new(Vec3::new(0, 0, -SCALE), Vec3::new(0, 0, SCALE), SCALE, &ray);
    assert!(toward.front_face);
    assert_eq!(toward.normal, Vec3::new(0, 0, SCALE));
    let away = HitRecord::new(Vec3::new(0, 0, -SCALE), Vec3::new(0, 0, -SCALE), SCALE, &ray);
    assert!(!away.front_face);
    assert_eq!(away.normal, Vec3::new(0, 0, SCALE));
}

#[test]
fn closest_hit_wins_and_first_wins_ties() {
    let mut world = World::new();
    let near = Sphere::new(Vec3::new(0, 0, -2 * SCALE), SCALE / 2);
    let far = Sphere::new(Vec3::new(0, 0, -6 * SCALE), SCALE / 2);
    let red = Material::Lambertian(Lambertian::new(Vec3::new(SCALE, 0, 0)));
    let green = Material::Lambertian(Lambertian::new(Vec3::new(0, SCALE, 0)));
    // Insert the far sphere first: the near one must still win.
    world.add(far, green);
    world.add(near, red);
    let ray = Ray::new(Vec3::new(0, 0, 0), Vec3::new(0, 0, -SCALE));
    let (hit, material) = world.trace(&ray, 66, T_LIMIT).expect("must hit the near sphere");
    assert_eq!(hit.t, 98304); // 2 - 0.5 = 1.5
    assert_eq!(material, red);

    // Two identical spheres: the one inserted first wins the exact tie.
    let mut tied = World::new();
    tied.add(near, green);
    tied.add(near, red);
    let (_, winner) = tied.trace(&ray, 66, T_LIMIT).expect("must hit");
    assert_eq!(winner, green);
}

#[test]
fn empty_world_sees_nothing() {
    let world = World::new();
    let ray = Ray::new(Vec3::new(0, 0, 0), Vec3::new(0, 0, -SCALE));
    assert!(world.trace(&ray, 66, T_LIMIT).is_none());
}

#[test]
fn ray_evaluates_its_parametric_form() {
    let ray = Ray::new(Vec3::new(SCALE, 0, 0), Vec3::new(0, 2 * SCALE, 0));
    assert_eq!(ray.origin(), Vec3::new(SCALE, 0, 0));
    assert_eq!(ray.direction(), Vec3::new(0, 2 * SCALE, 0));
    assert_eq!(ray.at(SCALE / 2), Vec3::new(SCALE, SCALE, 0));
}

#[test]
fn default_camera_center_ray_points_down_negative_z() {
    let mut rng = SampleRng::from_seed(3);
    let camera = Camera::new(2 * SCALE, 2 * SCALE);
    let ray = camera.ray(SCALE / 2, SCALE / 2, &mut rng);
    assert_eq!(ray.origin(), Vec3::new(0, 0, 0));
    let d = ray.direction();
    assert!(d.z() < 0);
    assert!(d.x().abs() <= 64, "x drift was {}", d.x());
    assert!(d.y().abs() <= 64, "y drift was {}", d.y());
    assert!((d.z() + SCALE).abs() <= 64, "z was {}", d.z());
}

#[test]
fn camera_builders_rebuild_the_frame() {
    let mut rng = SampleRng::from_seed(5);
    let camera = Camera::new(2 * SCALE, 2 * SCALE)
        .lookfrom(Vec3::new(-2 * SCALE, 2 * SCALE, SCALE))
        .lookat(Vec3::new(0, 0, -SCALE))
        .up(Vec3::new(0, SCALE, 0))
        .vfov(20 * SCALE);
    let ray = camera.ray(SCALE / 2, SCALE / 2, &mut rng);
    assert_eq!(ray.origin(), Vec3::new(-2 * SCALE, 2 * SCALE, SCALE));
    // The center ray points from lookfrom toward lookat: positive x,
    // negative y, negative z.
    let d = ray.direction();
    assert!(d.x() > 0 && d.y() < 0 && d.z() < 0, "direction was {d:?}");
}

#[test]
fn positive_aperture_jitters_the_origin() {
    let mut rng = SampleRng::from_seed(9);
    let camera = Camera::new(2 * SCALE, 2 * SCALE).lens(SCALE, 2 * SCALE);
    let mut moved = false;
    for _ in 0..8 {
        let ray = camera.ray(SCALE / 2, SCALE / 2, &mut rng);
        if ray.origin() != Vec3::new(0, 0, 0) {
            moved = true;
        }
    }
    assert!(moved, "defocus blur must jitter the ray origin");
}
