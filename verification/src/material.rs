//! The material scattering model: Lambertian (diffuse), Metal (specular
//! with optional fuzz) and Dielectric (refractive/reflective).

use vstd::prelude::*;
use crate::color::Color;
use crate::fixed::SCALE;
use crate::fixed::fx_mul_spec;
use crate::fixed::fx_div_spec;
use crate::fixed::sqrt_fx_spec;
use crate::fixed::fx_mul;
use crate::fixed::fx_div;
use crate::fixed::sqrt_fx;
use crate::fixed::lemma_mul_mag;
use crate::fixed::lemma_tdiv_mag;
use crate::fixed::lemma_fx_square_nonneg;
use crate::hittable::HitRecord;
use crate::hittable::hit_wf;
use crate::ray::Ray;
use crate::ray::ray_wf;
use crate::rng::SampleRng;
use crate::rtweekend::random_vec_in_unit_sphere;
use crate::rtweekend::spec_sample_ball;
use crate::rtweekend::BALL_TRIES;
use crate::vec3::Vec3;
use crate::vec3::V3;
use crate::vec3::in_mag;
use crate::vec3::mk_vec3;
use crate::vec3::add_spec;
use crate::vec3::sub_spec;
use crate::vec3::neg_spec;
use crate::vec3::scale_spec;
use crate::vec3::dot_spec;
use crate::vec3::ls_spec;
use crate::vec3::normalized_spec;
use crate::vec3::lemma_dot_mag;
use crate::vec3::lemma_scale_mag;
use crate::vec3::lemma_ls_nonneg;

verus! {

/// A color whose channels all lie in the displayable range `[0, 1]`.
pub open spec fn color_wf(c: V3) -> bool {
    &&& 0 <= c.x <= SCALE as int
    &&& 0 <= c.y <= SCALE as int
    &&& 0 <= c.z <= SCALE as int
}

/// Lambertian (diffuse) material: always scatters, toward the surface
/// normal plus a random unit vector, attenuating by its albedo.
#[derive(Clone, Copy, Debug, PartialEq, Eq, Structural)]
pub struct Lambertian {
    /// Color of the object.
    pub albedo: Color,
}

/// Metal (specular) material: reflects the incoming direction about the
/// normal, optionally perturbed by `fuzz` times a random vector in the
/// unit sphere; a perturbed direction on or below the surface is
/// absorbed.
#[derive(Clone, Copy, Debug, PartialEq, Eq, Structural)]
pub struct Metal {
    /// Color of the object.
    pub albedo: Color,
    /// Fuzziness of the specular reflections, within `[0, 1]`.
    pub fuzz: i64,
}

/// Clear (dielectric) material: refracts by Snell's law where a real
/// solution exists, otherwise reflects (total internal reflection);
/// never absorbs.
#[derive(Clone, Copy, Debug, PartialEq, Eq, Structural)]
pub struct Dielectric {
    /// Refraction index, at least one (the surrounding medium is taken
    /// to be vacuum).
    pub refraction: i64,
}

/// The closed set of materials a surface can carry.
#[derive(Clone, Copy, Debug, PartialEq, Eq, Structural)]
pub enum Material {
    Lambertian(Lambertian),
    Metal(Metal),
    Dielectric(Dielectric),
}

/// A material whose parameters lie in their documented ranges (colors in
/// `[0, 1]`, fuzz in `[0, 1]`, refraction index in `[1, 4]`).
pub open spec fn material_wf(m: Material) -> bool {
    match m {
        Material::Lambertian(l) => color_wf(l.albedo@),
        Material::Metal(mt) => color_wf(mt.albedo@) && 0 <= mt.fuzz <= SCALE,
        Material::Dielectric(d) => SCALE <= d.refraction <= 4 * SCALE,
    }
}

/// The mirror reflection of `v` about the normal `n`: `v - 2 (v.n) n`.
pub open spec fn spec_reflect(v: V3, n: V3) -> V3 {
    sub_spec(v, scale_spec(scale_spec(n, dot_spec(v, n)), 2 * (SCALE as int)))
}

/// The refracted direction by Snell's law, split into the component
/// perpendicular to the normal and the one parallel to it.
pub open spec fn spec_refract(r: V3, n: V3, ratio: int) -> V3 {
    let cos0 = dot_spec(neg_spec(r), n);
    let cos = if cos0 > SCALE as int {
        SCALE as int
    } else {
        cos0
    };
    let perp = scale_spec(add_spec(r, scale_spec(n, cos)), ratio);
    let inner = SCALE - ls_spec(perp);
    let inner_abs = if inner < 0 {
        -inner
    } else {
        inner
    };
    add_spec(perp, scale_spec(n, -sqrt_fx_spec(inner_abs)))
}

/// What a Lambertian surface scatters when drawing from generator
/// state `s`: always some ray from the hit point toward the normal plus
/// the unit vector of the sampled ball point, attenuated by the albedo;
/// paired with the generator state after the draw.
pub open spec fn spec_scatter_lambertian(l: Lambertian, rec: HitRecord, s: u64) -> (
    Option<(Ray, Color)>,
    u64,
) {
    let d = spec_sample_ball(s, BALL_TRIES as nat);
    (
        Some(
            (
                Ray {
                    origin: rec.point,
                    direction: mk_vec3(add_spec(rec.normal@, normalized_spec(d.0))),
                },
                l.albedo,
            ),
        ),
        d.1,
    )
}

/// What a metal surface scatters when drawing from generator state `s`:
/// the mirror reflection of the unit incoming direction, perturbed by
/// `fuzz` times the sampled ball point, absorbed if the perturbed
/// direction does not leave the surface; paired with the generator
/// state after the draw.
pub open spec fn spec_scatter_metal(m: Metal, ray: Ray, rec: HitRecord, s: u64) -> (
    Option<(Ray, Color)>,
    u64,
) {
    let refl = spec_reflect(normalized_spec(ray.direction@), rec.normal@);
    let d = spec_sample_ball(s, BALL_TRIES as nat);
    let dir = add_spec(refl, scale_spec(d.0, m.fuzz as int));
    (
        if dot_spec(dir, rec.normal@) <= 0 {
            None
        } else {
            Some((Ray { origin: rec.point, direction: mk_vec3(dir) }, m.albedo))
        },
        d.1,
    )
}

/// What any material scatters from generator state `s`, and the state
/// left behind: dielectrics draw nothing.
pub open spec fn spec_scatter_material(mt: Material, ray: Ray, rec: HitRecord, s: u64) -> (
    Option<(Ray, Color)>,
    u64,
) {
    match mt {
        Material::Lambertian(l) => spec_scatter_lambertian(l, rec, s),
        Material::Metal(m) => spec_scatter_metal(m, ray, rec, s),
        Material::Dielectric(d) => (spec_dielectric_scatter(d, ray, rec), s),
    }
}

/// What a metal surface with no fuzz scatters: exactly the mirror
/// reflection, or absorption if the reflection grazes the surface.
pub open spec fn spec_metal_mirror(m: Metal, ray: Ray, rec: HitRecord) -> Option<
    (Ray, Color),
> {
    let refl = spec_reflect(normalized_spec(ray.direction@), rec.normal@);
    if dot_spec(refl, rec.normal@) <= 0 {
        None
    } else {
        Some((Ray { origin: rec.point, direction: mk_vec3(refl) }, m.albedo))
    }
}

/// The refraction ratio a dielectric uses: entering through the front
/// face divides one by the index; leaving through the back face uses the
/// index itself.
pub open spec fn spec_refraction_ratio(d: Dielectric, front_face: bool) -> int {
    if front_face {
        fx_div_spec(SCALE as int, d.refraction as int)
    } else {
        d.refraction as int
    }
}

/// The sine of the incidence angle, from its cosine against the normal:
/// `sin = sqrt(1 - cos^2)`, with the cosine clamped to at most one and
/// the radicand clamped to nonnegative.
pub open spec fn spec_sin_theta(ray: Ray, rec: HitRecord) -> int {
    let r = normalized_spec(ray.direction@);
    let cos0 = dot_spec(neg_spec(r), rec.normal@);
    let cos = if cos0 > SCALE as int {
        SCALE as int
    } else {
        cos0
    };
    let sin2 = SCALE - fx_mul_spec(cos, cos);
    sqrt_fx_spec(
        if sin2 < 0 {
            0
        } else {
            sin2
        },
    )
}

/// Total internal reflection: Snell's law has no real solution, because
/// the refraction ratio times the sine of the incidence angle exceeds
/// one.
pub open spec fn spec_dielectric_tir(d: Dielectric, ray: Ray, rec: HitRecord) -> bool {
    fx_mul_spec(
        spec_refraction_ratio(d, rec.front_face),
        spec_sin_theta(ray, rec),
    ) > SCALE as int
}

/// What a dielectric surface scatters: always some ray from the hit
/// point, reflected under total internal reflection and refracted
/// otherwise, attenuated by pure white (dielectrics are lossless).
pub open spec fn spec_dielectric_scatter(d: Dielectric, ray: Ray, rec: HitRecord) -> Option<
    (Ray, Color),
> {
    let ratio = spec_refraction_ratio(d, rec.front_face);
    let r = normalized_spec(ray.direction@);
    let dir = if spec_dielectric_tir(d, ray, rec) {
        spec_reflect(r, rec.normal@)
    } else {
        spec_refract(r, rec.normal@, ratio)
    };
    Some(
        (
            Ray { origin: rec.point, direction: mk_vec3(dir) },
            Vec3 { x: SCALE, y: SCALE, z: SCALE },
        ),
    )
}

impl Lambertian {
    /// Create a new diffuse material from a given intrinsic object color.
    pub fn new(albedo: Color) -> (r: Self)
        ensures
            r.albedo == albedo,
    {
        Lambertian { albedo }
    }

    /// Diffuse reflection: scatter toward the normal plus a random unit
    /// vector, which gives the cosine-weighted Lambertian distribution.
    pub fn scatter(&self, _ray: &Ray, rec: &HitRecord, rng: &mut SampleRng) -> (r: Option<
        (Ray, Color),
    >)
        requires
            hit_wf(*rec),
        ensures
            r matches Some((sc, att)) ==> {
                &&& ray_wf(sc)
                &&& sc.origin == rec.point
                &&& att == self.albedo
            },
            r is Some,
            r == spec_scatter_lambertian(*self, *rec, old(rng).state).0,
            final(rng).state == spec_scatter_lambertian(*self, *rec, old(rng).state).1,
    {
        let random_unit_vec = random_vec_in_unit_sphere(rng).normalized();
        let scatter_direction = rec.normal.add(random_unit_vec);
        let scatter = Ray::new(rec.point, scatter_direction);
        let result = Some((scatter, self.albedo));
        proof {
            assert(mk_vec3(scatter_direction@) == scatter_direction);
        }
        result
    }
}

impl Metal {
    /// Create a new metallic material; the fuzz factor is clamped into
    /// `[0, 1]`.
    pub fn new(albedo: Color, fuzz: i64) -> (r: Self)
        ensures
            r.albedo == albedo,
            r.fuzz as int == crate::fixed::spec_clamp(fuzz as int, 0, SCALE as int),
            0 <= r.fuzz <= SCALE,
    {
        Metal { albedo, fuzz: crate::rtweekend::clamp(fuzz, 0, SCALE) }
    }

    /// Returns the reflected ray direction: `v - 2 (v.n) n`.
    pub fn reflect(ray: &Vec3, normal: &Vec3) -> (r: Vec3)
        requires
            in_mag(ray@, 4 * (SCALE as int)),
            in_mag(normal@, 4 * (SCALE as int)),
        ensures
            r@ == spec_reflect(ray@, normal@),
            in_mag(r@, 0x200_0000),
    {
        proof {
            lemma_dot_mag(ray@, normal@, 0x4_0000, 0x4_0000);
            lemma_scale_mag(normal@, dot_spec(ray@, normal@), 0x4_0000, 0x30_0000);
            lemma_scale_mag(
                scale_spec(normal@, dot_spec(ray@, normal@)),
                2 * (SCALE as int),
                0xC0_0000,
                0x2_0000,
            );
        }
        let d = Vec3::dot(ray, normal);
        let b = normal.mul(d);
        ray.sub(b.mul(2 * SCALE))
    }

    /// Specular reflection with fuzz: reflect the unit incoming
    /// direction, perturb by `fuzz` times a random point in the unit
    /// sphere, and absorb directions that stay on or under the surface.
    pub fn scatter(&self, ray: &Ray, rec: &HitRecord, rng: &mut SampleRng) -> (r: Option<
        (Ray, Color),
    >)
        requires
            0 <= self.fuzz <= SCALE,
            ray_wf(*ray),
            ls_spec(ray.direction@) >= 1,
            hit_wf(*rec),
        ensures
            r matches Some((sc, att)) ==> {
                &&& ray_wf(sc)
                &&& sc.origin == rec.point
                &&& att == self.albedo
                &&& dot_spec(sc.direction@, rec.normal@) > 0
            },
            r == spec_scatter_metal(*self, *ray, *rec, old(rng).state).0,
            final(rng).state == spec_scatter_metal(*self, *ray, *rec, old(rng).state).1,
            self.fuzz == 0 ==> r == spec_metal_mirror(*self, *ray, *rec),
    {
        let unit = ray.direction().normalized();
        let reflected = Metal::reflect(&unit, &rec.normal);
        let w = random_vec_in_unit_sphere(rng);
        proof {
            lemma_scale_mag(w@, self.fuzz as int, SCALE as int, SCALE as int);
        }
        let fuzzed = w.mul(self.fuzz);
        let direction = reflected.add(fuzzed);
        let scatter = Ray::new(rec.point, direction);
        let d = Vec3::dot(&scatter.direction(), &rec.normal);
        proof {
            if self.fuzz == 0 {
                assert(w@.x * 0 == 0) by (nonlinear_arith);
                assert(w@.y * 0 == 0) by (nonlinear_arith);
                assert(w@.z * 0 == 0) by (nonlinear_arith);
                assert(scale_spec(w@, 0) == (V3 { x: 0, y: 0, z: 0 }));
                assert(direction@ == spec_reflect(normalized_spec(ray.direction@), rec.normal@));
            }
            assert(mk_vec3(direction@) == direction);
        }
        if d <= 0 {
            None
        } else {
            Some((scatter, self.albedo))
        }
    }
}

impl Dielectric {
    /// Create a new dielectric material from a refraction index.
    pub fn new(refraction: i64) -> (r: Self)
        ensures
            r.refraction == refraction,
    {
        Dielectric { refraction }
    }

    /// Returns the refracted (transmitted) ray direction, based on
    /// Snell's law, as the sum of the components perpendicular and
    /// parallel to the normal.
    pub fn refract(ray: &Vec3, normal: &Vec3, refraction_ratio: i64) -> (r: Vec3)
        requires
            in_mag(ray@, 2 * (SCALE as int)),
            in_mag(normal@, 2 * (SCALE as int)),
            0 <= refraction_ratio <= 4 * SCALE,
        ensures
            r@ == spec_refract(ray@, normal@, refraction_ratio as int),
            in_mag(r@, 0x200_0000),
    {
        proof {
            lemma_dot_mag(neg_spec(ray@), normal@, 0x2_0000, 0x2_0000);
        }
        let mut cos_theta = Vec3::dot(&ray.neg(), normal);
        if cos_theta > SCALE {
            cos_theta = SCALE;
        }
        proof {
            lemma_scale_mag(normal@, cos_theta as int, 0x2_0000, 0xC_0000);
            lemma_scale_mag(
                add_spec(ray@, scale_spec(normal@, cos_theta as int)),
                refraction_ratio as int,
                0x1A_0000,
                0x4_0000,
            );
        }
        let perpendicular = ray.add(normal.mul(cos_theta)).mul(refraction_ratio);
        proof {
            lemma_dot_mag(perpendicular@, perpendicular@, 0x68_0000, 0x68_0000);
            lemma_ls_nonneg(perpendicular@);
        }
        let perp_ls = perpendicular.length_squared();
        let mut inner = SCALE - perp_ls;
        if inner < 0 {
            inner = -inner;
        }
        let sq = sqrt_fx(inner);
        proof {
            assert(sq <= 0xB5_0000) by (nonlinear_arith)
                requires
                    0 <= sq,
                    (sq as int) * (sq as int) <= (inner as int) * (SCALE as int),
                    0 <= inner <= 0x7EC0_0000,
                    SCALE == 65536,
            ;
            lemma_scale_mag(normal@, -(sq as int), 2 * (SCALE as int), 0xB5_0000);
        }
        let parallel = normal.mul(-sq);
        perpendicular.add(parallel)
    }

    /// Refract where Snell's law has a real solution; reflect under
    /// total internal reflection. The ray is assumed to pass between the
    /// material and a surrounding vacuum, and nothing is absorbed.
    pub fn scatter(&self, ray: &Ray, rec: &HitRecord) -> (r: Option<(Ray, Color)>)
        requires
            SCALE <= self.refraction <= 4 * SCALE,
            ray_wf(*ray),
            ls_spec(ray.direction@) >= 1,
            hit_wf(*rec),
        ensures
            r == spec_dielectric_scatter(*self, *ray, *rec),
            r matches Some((sc, att)) ==> {
                &&& ray_wf(sc)
                &&& sc.origin == rec.point
                &&& att@ == (V3 { x: SCALE as int, y: SCALE as int, z: SCALE as int })
            },
            spec_dielectric_tir(*self, *ray, *rec) ==> (r matches Some((sc, att))
                && sc.direction == mk_vec3(
                spec_reflect(normalized_spec(ray.direction@), rec.normal@),
            )),
    {
        let ratio = if rec.front_face {
            proof {
                assert((SCALE as int) * (SCALE as int) == 0x1_0000_0000) by (nonlinear_arith)
                    requires
                        SCALE == 65536,
                ;
                lemma_tdiv_mag(
                    (SCALE as int) * (SCALE as int),
                    self.refraction as int,
                    0x1_0000_0000,
                );
                vstd::arithmetic::div_mod::lemma_div_pos_is_pos(
                    0x1_0000_0000,
                    self.refraction as int,
                );
                vstd::arithmetic::div_mod::lemma_div_is_ordered_by_denominator(
                    0x1_0000_0000,
                    SCALE as int,
                    self.refraction as int,
                );
            }
            fx_div(SCALE, self.refraction)
        } else {
            self.refraction
        };
        let r_unit = ray.direction().normalized();
        proof {
            lemma_dot_mag(neg_spec(r_unit@), rec.normal@, 0x2_0000, 0x2_0000);
        }
        let mut cos_theta = Vec3::dot(&r_unit.neg(), &rec.normal);
        if cos_theta > SCALE {
            cos_theta = SCALE;
        }
        proof {
            lemma_mul_mag(cos_theta as int, cos_theta as int, 0xC_0000, 0xC_0000);
            lemma_tdiv_mag(
                (cos_theta as int) * (cos_theta as int),
                SCALE as int,
                0x90_0000_0000,
            );
            lemma_fx_square_nonneg(cos_theta as int);
        }
        let sin2_raw = SCALE - fx_mul(cos_theta, cos_theta);
        let sin2 = if sin2_raw < 0 {
            0
        } else {
            sin2_raw
        };
        let sin_theta = sqrt_fx(sin2);
        proof {
            assert(sin_theta <= SCALE) by (nonlinear_arith)
                requires
                    0 <= sin_theta,
                    (sin_theta as int) * (sin_theta as int) <= (sin2 as int) * (SCALE as int),
                    0 <= sin2 <= SCALE,
                    SCALE == 65536,
            ;
            lemma_mul_mag(ratio as int, sin_theta as int, 4 * (SCALE as int), SCALE as int);
            lemma_tdiv_mag(
                (ratio as int) * (sin_theta as int),
                SCALE as int,
                0x4_0000_0000,
            );
        }
        let direction = if fx_mul(ratio, sin_theta) > SCALE {
            Metal::reflect(&r_unit, &rec.normal)
        } else {
            Dielectric::refract(&r_unit, &rec.normal, ratio)
        };
        let scatter = Ray::new(rec.point, direction);
        let attenuation = Color::new(SCALE, SCALE, SCALE);
        proof {
            assert(mk_vec3(direction@) == direction);
        }
        Some((scatter, attenuation))
    }
}

impl Material {
    /// Scatter an incoming light ray on this material. `None` means the
    /// ray was absorbed.
    pub fn scatter(&self, ray: &Ray, rec: &HitRecord, rng: &mut SampleRng) -> (r: Option<
        (Ray, Color),
    >)
        requires
            material_wf(*self),
            ray_wf(*ray),
            ls_spec(ray.direction@) >= 1,
            hit_wf(*rec),
        ensures
            r matches Some((sc, att)) ==> {
                &&& ray_wf(sc)
                &&& sc.origin == rec.point
                &&& color_wf(att@)
            },
            r == spec_scatter_material(*self, *ray, *rec, old(rng).state).0,
            final(rng).state == spec_scatter_material(*self, *ray, *rec, old(rng).state).1,
            match *self {
                Material::Lambertian(_) => r is Some,
                Material::Metal(m) => m.fuzz == 0 ==> r == spec_metal_mirror(m, *ray, *rec),
                Material::Dielectric(d) => r == spec_dielectric_scatter(d, *ray, *rec),
            },
    {
        match self {
            Material::Lambertian(l) => l.scatter(ray, rec, rng),
            Material::Metal(m) => m.scatter(ray, rec, rng),
            Material::Dielectric(d) => d.scatter(ray, rec),
        }
    }
}


} // verus!
