use raytracer::camera::Camera;
use raytracer::fixed::SCALE;
use raytracer::hittable::HitRecord;
use raytracer::material::{Dielectric, Lambertian, Material, Metal};
use raytracer::ray::{Ray, T_LIMIT};
use raytracer::render::{ray_color, render_pixel, tone_map};
use raytracer::rng::SampleRng;
use raytracer::sphere::Sphere;
use raytracer::vec3::Vec3;
use raytracer::world::World;

fn head_on_hit() -> (Ray, HitRecord) {
    // Unit sphere at the origin hit head-on from (0,0,2): the hit point
    // and normal are exactly representable.
    let sphere = Sphere::new(Vec3::new(0, 0, 0), SCALE);
    let ray = Ray::new(Vec3::new(0, 0, 2 * SCALE), Vec3::new(0, 0, -SCALE));
    let hit = sphere.is_hit(&ray, 0, T_LIMIT).expect("head-on ray must hit");
    (ray, hit)
}

#[test]
fn lambertian_attenuates_by_its_albedo_exactly() {
    let (ray, hit) = head_on_hit();
    let albedo = Vec3::new(13107, 26214, 39321);
    let material = Lambertian::new(albedo);
    let mut rng = SampleRng::from_seed(21);
    for _ in 0..16 {
        let (scattered, attenuation) =
            material.scatter(&ray, &hit, &mut rng).expect("lambertian always scatters");
        assert_eq!(attenuation, albedo);
        assert_eq!(scattered.origin(), hit.point);
    }
}

#[test]
fn dielectric_attenuation_is_always_white() {
    let (ray, hit) = head_on_hit();
    let material = Dielectric::new(98304); // index 1.5
    let (scattered, attenuation) = material.scatter(&ray, &hit).expect("dielectrics never absorb");
    assert_eq!(attenuation, Vec3::new(SCALE, SCALE, SCALE));
    assert_eq!(scattered.origin(), hit.point);
}

#[test]
fn fuzzless_metal_mirrors_exactly() {
    // Sphere of radius 0.5 at (0,0,-1) hit straight on: the incoming
    // (0,0,-1) must come back as exactly (0,0,1).
    let sphere = Sphere::new(Vec3::new(0, 0, -SCALE), SCALE / 2);
    let ray = Ray::new(Vec3::new(0, 0, 0), Vec3::new(0, 0, -SCALE));
    let hit = sphere.is_hit(&ray, 0, T_LIMIT).expect("must hit");
    assert_eq!(hit.t, SCALE / 2);
    let material = Metal::new(Vec3::new(52428, 39321, 13107), 0);
    let mut rng = SampleRng::from_seed(33);
    let (scattered, attenuation) =
        material.scatter(&ray, &hit, &mut rng).expect("mirror reflection leaves the surface");
    assert_eq!(scattered.direction(), Vec3::new(0, 0, SCALE));
    assert_eq!(attenuation, Vec3::new(52428, 39321, 13107));
}

#[test]
fn metal_new_clamps_fuzz() {
    let albedo = Vec3::new(SCALE, SCALE, SCALE);
    assert_eq!(Metal::new(albedo, 3 * SCALE).fuzz, SCALE);
    assert_eq!(Metal::new(albedo, -5).fuzz, 0);
    assert_eq!(Metal::new(albedo, 1234).fuzz, 1234);
}

#[test]
fn steep_back_face_ray_reflects_totally() {
    // A ray leaving glass (index 1.5) through the back face at 45
    // degrees: sin(45) > 1/1.5, so Snell's law has no solution and the
    // scatter must take the reflect branch.
    let ray = Ray::new(Vec3::new(0, 0, -SCALE), Vec3::new(SCALE, 0, SCALE));
    // Back face: the outward normal points along the ray.
    let hit = HitRecord::new(Vec3::new(0, 0, 0), Vec3::new(0, 0, SCALE), SCALE, &ray);
    assert!(!hit.front_face);
    let material = Dielectric::new(98304);
    let (scattered, _) = material.scatter(&ray, &hit).expect("dielectrics never absorb");
    let mirrored = Metal::reflect(&ray.direction().normalized(), &hit.normal);
    assert_eq!(scattered.direction(), mirrored);
    // The reflection bounces back along z while refraction would have
    // continued forward: the z component flips sign.
    assert!(scattered.direction().z() < 0);
}

#[test]
fn shallow_front_face_ray_refracts() {
    // Entering glass head-on: no total internal reflection, and the
    // refracted continuation keeps going forward.
    let (ray, hit) = head_on_hit();
    let material = Dielectric::new(98304);
    let (scattered, _) = material.scatter(&ray, &hit).expect("dielectrics never absorb");
    assert!(scattered.direction().z() < 0, "refraction continues into the sphere");
}

#[test]
fn center_ray_hits_the_scene_sphere() {
    // Single sphere of radius 0.5 at (0,0,-1), Lambertian albedo
    // (0.5,0.5,0.5), default camera at the origin looking down -z, one
    // sample, depth 1: the center ray's color must differ from the
    // background gradient.
    let mut world = World::new();
    world.add(
        Sphere::new(Vec3::new(0, 0, -SCALE), SCALE / 2),
        Material::Lambertian(Lambertian::new(Vec3::new(32768, 32768, 32768))),
    );
    let camera = Camera::new(2 * SCALE, 2 * SCALE);
    let mut rng = SampleRng::from_seed(1);
    let ray = camera.ray(SCALE / 2, SCALE / 2, &mut rng);
    let hit_color = ray_color(&ray, &world, 1, &mut rng);
    let empty = World::new();
    let background = ray_color(&ray, &empty, 1, &mut rng);
    assert_ne!(hit_color, background);
}

#[test]
fn background_blends_white_to_blue_exactly() {
    let empty = World::new();
    let mut rng = SampleRng::from_seed(2);
    // Straight up: pure sky-blue.
    let up = Ray::new(Vec3::new(0, 0, 0), Vec3::new(0, SCALE, 0));
    assert_eq!(ray_color(&up, &empty, 8, &mut rng), Vec3::new(32768, 45875, SCALE));
    // Straight down: pure white.
    let down = Ray::new(Vec3::new(0, 0, 0), Vec3::new(0, -SCALE, 0));
    assert_eq!(ray_color(&down, &empty, 8, &mut rng), Vec3::new(SCALE, SCALE, SCALE));
    // Horizontal: the exact midpoint blend.
    let level = Ray::new(Vec3::new(0, 0, 0), Vec3::new(SCALE, 0, 0));
    assert_eq!(ray_color(&level, &empty, 8, &mut rng), Vec3::new(49152, 55705, SCALE));
}

#[test]
fn depth_zero_returns_black() {
    let empty = World::new();
    let mut rng = SampleRng::from_seed(4);
    let ray = Ray::new(Vec3::new(0, 0, 0), Vec3::new(0, SCALE, 0));
    assert_eq!(ray_color(&ray, &empty, 0, &mut rng), Vec3::new(0, 0, 0));
}

#[test]
fn same_seed_renders_the_same_pixel() {
    let mut world = World::new();
    world.add(
        Sphere::new(Vec3::new(0, -6586368, -SCALE), 100 * SCALE),
        Material::Lambertian(Lambertian::new(Vec3::new(52428, 52428, 0))),
    );
    world.add(
        Sphere::new(Vec3::new(0, 0, -SCALE), SCALE / 2),
        Material::Lambertian(Lambertian::new(Vec3::new(6553, 13107, 32768))),
    );
    world.add(
        Sphere::new(Vec3::new(-SCALE, 0, -SCALE), SCALE / 2),
        Material::Dielectric(Dielectric::new(98304)),
    );
    world.add(
        Sphere::new(Vec3::new(SCALE, 0, -SCALE), SCALE / 2),
        Material::Metal(Metal::new(Vec3::new(52428, 39321, 13107), 19660)),
    );
    let camera = Camera::new(2 * SCALE, 2 * SCALE).lens(SCALE / 4, 2 * SCALE);
    let mut rng1 = SampleRng::from_seed(12345);
    let mut rng2 = SampleRng::from_seed(12345);
    for (px, py) in [(0usize, 0usize), (3, 2), (7, 7)] {
        let a = render_pixel(&camera, &world, px, py, 8, 8, 4, 8, &mut rng1);
        let b = render_pixel(&camera, &world, px, py, 8, 8, 4, 8, &mut rng2);
        assert_eq!(a, b, "same seed must give a bit-identical pixel");
    }
}

#[test]
fn tone_map_applies_gamma_clamp_and_scale() {
    // Full white clamps at 0.999 and lands on 255; a quarter intensity
    // has square root one half, which is byte 128; black stays black.
    assert_eq!(tone_map(&Vec3::new(SCALE, 16384, 0)), (255, 128, 0));
    // 0.5 -> sqrt(0.5) = 0.70710.. -> byte 181.
    let (r, _, _) = tone_map(&Vec3::new(32768, 0, 0));
    assert_eq!(r, 181);
}

#[test]
fn render_pixel_stays_in_unit_range() {
    let mut world = World::new();
    world.add(
        Sphere::new(Vec3::new(0, 0, -SCALE), SCALE / 2),
        Material::Metal(Metal::new(Vec3::new(SCALE, SCALE, SCALE), 6553)),
    );
    let camera = Camera::new(2 * SCALE, 2 * SCALE);
    let mut rng = SampleRng::from_seed(77);
    let color = render_pixel(&camera, &world, 2, 2, 5, 5, 16, 16, &mut rng);
    for channel in [color.x(), color.y(), color.z()] {
        assert!(0 <= channel && channel <= SCALE, "channel was {channel}");
    }
}
