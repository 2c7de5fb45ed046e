//! The sphere primitive and its closed-form ray intersection.

use vstd::prelude::*;
use crate::fixed::SCALE;
use crate::fixed::fx_mul_spec;
use crate::fixed::fx_div_spec;
use crate::fixed::sqrt_fx_spec;
use crate::fixed::is_isqrt;
use crate::fixed::fx_mul;
use crate::fixed::fx_div;
use crate::fixed::sqrt_fx;
use crate::fixed::lemma_mul_mag;
use crate::fixed::lemma_tdiv_mag;
use crate::hittable::HitRecord;
use crate::hittable::spec_hit_record;
use crate::ray::Point3;
use crate::ray::Ray;
use crate::ray::T_LIMIT;
use crate::ray::ray_wf;
use crate::ray::at_spec;
use crate::vec3::Vec3;
use crate::vec3::V3;
use crate::vec3::GEOM_MAX;
use crate::vec3::NORMAL_MAX;
use crate::vec3::POINT_MAX;
use crate::vec3::in_mag;
use crate::vec3::check_mag;
use crate::vec3::sub_spec;
use crate::vec3::dot_spec;
use crate::vec3::ls_spec;
use crate::vec3::div_scale_spec;
use crate::vec3::lemma_dot_mag;
use crate::vec3::lemma_ls_nonneg;

verus! {

/// A sphere, given by its center and radius. A negative radius describes
/// the same surface as its magnitude, but with the outward normal flipped
/// inward — the modeling trick behind hollow glass spheres.
#[derive(Clone, Copy, Debug, PartialEq, Eq, Structural)]
pub struct Sphere {
    pub center: Point3,
    pub radius: i64,
}

/// A sphere whose whole surface lies within the scene region: the
/// radius magnitude plus each center component stays under `GEOM_MAX`,
/// so every point of the sphere sits at least half a region inside the
/// `POINT_MAX` cap on hit points. The radius magnitude is also at least
/// 256 raw steps; below that, the fixed-point outward normal
/// `(point - center) / radius` would lose all precision.
pub open spec fn sphere_wf(s: Sphere) -> bool {
    let ar = if s.radius < 0 {
        -(s.radius as int)
    } else {
        s.radius as int
    };
    &&& 256 <= ar <= GEOM_MAX as int
    &&& in_mag(s.center@, GEOM_MAX - ar)
}

/// What the intersection test reports: the quadratic
/// `t^2 (d.d) + 2t (d.(o-c)) + ((o-c).(o-c) - r^2) = 0` is solved with the
/// half-b simplification; a negative discriminant, or no root within
/// `[t_min, t_max]` (the smaller root is preferred), means no hit. As a
/// last resort a hit whose computed point or outward normal would leave
/// the representable caps is discarded; a well-formed sphere's surface
/// lies at least 512 units inside the point cap and its normal is a
/// unit vector up to truncation, so these branches guard only against
/// truncation artifacts far from any admitted surface.
pub open spec fn spec_is_hit(s: Sphere, ray: Ray, t_min: int, t_max: int) -> Option<
    HitRecord,
> {
    let oc = sub_spec(ray.origin@, s.center@);
    let a = ls_spec(ray.direction@);
    let half_b = dot_spec(oc, ray.direction@);
    let c = ls_spec(oc) - fx_mul_spec(s.radius as int, s.radius as int);
    let disc = fx_mul_spec(half_b, half_b) - fx_mul_spec(a, c);
    if disc < 0 {
        None
    } else if a == 0 {
        None
    } else {
        let d_sqrt = sqrt_fx_spec(disc);
        let root1 = fx_div_spec(-half_b - d_sqrt, a);
        let root = if root1 < t_min || root1 > t_max {
            fx_div_spec(-half_b + d_sqrt, a)
        } else {
            root1
        };
        if root < t_min || root > t_max {
            None
        } else {
            let p = at_spec(ray, root);
            let on = div_scale_spec(sub_spec(p, s.center@), s.radius as int);
            if !in_mag(p, POINT_MAX as int) || !in_mag(on, NORMAL_MAX as int) {
                None
            } else {
                Some(spec_hit_record(p, on, root, ray))
            }
        }
    }
}

impl Sphere {
    pub fn new(center: Point3, radius: i64) -> (r: Sphere)
        ensures
            r.center == center,
            r.radius == radius,
    {
        Sphere { center, radius }
    }

    /// Test whether the sphere is hit by an incoming ray with parameter
    /// in `[t_min, t_max]`.
    ///
    /// A hit carries a record whose normal points against the ray, whose
    /// parameter lies in the interval, and whose point and normal stay
    /// within the representable region.
    pub fn is_hit(&self, ray: &Ray, t_min: i64, t_max: i64) -> (r: Option<HitRecord>)
        requires
            sphere_wf(*self),
            ray_wf(*ray),
            0 <= t_min,
            t_max <= T_LIMIT,
        ensures
            r == spec_is_hit(*self, *ray, t_min as int, t_max as int),
            r matches Some(h) ==> {
                &&& t_min <= h.t <= t_max
                &&& in_mag(h.point@, POINT_MAX as int)
                &&& in_mag(h.normal@, NORMAL_MAX as int)
                &&& dot_spec(ray.direction@, h.normal@) <= 0
            },
    {
        let oc = ray.origin().sub(self.center);
        let a = ray.direction().length_squared();
        proof {
            lemma_dot_mag(ray.direction@, ray.direction@, GEOM_MAX as int, GEOM_MAX as int);
            lemma_dot_mag(oc@, ray.direction@, 0xA00_0000, GEOM_MAX as int);
            lemma_dot_mag(oc@, oc@, 0xA00_0000, 0xA00_0000);
            lemma_ls_nonneg(oc@);
        }
        let half_b = Vec3::dot(&oc, &ray.direction());
        proof {
            lemma_mul_mag(self.radius as int, self.radius as int, GEOM_MAX as int, GEOM_MAX as int);
            lemma_tdiv_mag(
                (self.radius as int) * (self.radius as int),
                SCALE as int,
                0x10_0000_0000_0000,
            );
            crate::fixed::lemma_fx_square_nonneg(self.radius as int);
        }
        let c = oc.length_squared() - fx_mul(self.radius, self.radius);
        proof {
            lemma_mul_mag(half_b as int, half_b as int, 0x78_0000_0000, 0x78_0000_0000);
            lemma_tdiv_mag(
                (half_b as int) * (half_b as int),
                SCALE as int,
                0x3840_0000_0000_0000_0000,
            );
            crate::fixed::lemma_fx_square_nonneg(half_b as int);
            lemma_mul_mag(a as int, c as int, 0x30_0000_0000, 0x140_0000_0000);
            lemma_tdiv_mag(
                (a as int) * (c as int),
                SCALE as int,
                0x3C00_0000_0000_0000_0000,
            );
        }
        let discriminant = fx_mul(half_b, half_b) - fx_mul(a, c);
        if discriminant < 0 {
            return None;
        }
        if a == 0 {
            return None;
        }
        let d_sqrt = sqrt_fx(discriminant);
        proof {
            lemma_sqrt_small(discriminant as int, d_sqrt as int);
            lemma_root_fits(-(half_b as int) - d_sqrt, a as int);
            lemma_root_fits(-(half_b as int) + d_sqrt, a as int);
        }
        let mut root = fx_div(-half_b - d_sqrt, a);
        if root < t_min || root > t_max {
            root = fx_div(-half_b + d_sqrt, a);
            if root < t_min || root > t_max {
                return None;
            }
        }
        let point = ray.at(root);
        if !check_mag(&point, POINT_MAX) {
            return None;
        }
        proof {
            lemma_mul_mag(point@.x - self.center@.x, SCALE as int, 0xA00_0000, SCALE as int);
            lemma_mul_mag(point@.y - self.center@.y, SCALE as int, 0xA00_0000, SCALE as int);
            lemma_mul_mag(point@.z - self.center@.z, SCALE as int, 0xA00_0000, SCALE as int);
            lemma_outward_fits(sub_spec(point@, self.center@), self.radius as int);
        }
        let outward_normal = point.sub(self.center).div(self.radius);
        if !check_mag(&outward_normal, NORMAL_MAX) {
            return None;
        }
        Some(HitRecord::new(point, outward_normal, root, ray))
    }
}

/// The square root of an `i64` discriminant is below 2^40.
proof fn lemma_sqrt_small(disc: int, s: int)
    requires
        0 <= disc <= i64::MAX,
        is_isqrt(disc * SCALE, s),
    ensures
        0 <= s < 0x100_0000_0000,
{
    assert(s < 0x100_0000_0000) by (nonlinear_arith)
        requires
            0 <= s,
            s * s <= disc * SCALE,
            0 <= disc <= i64::MAX,
            SCALE == 65536,
    ;
}

/// A root numerator below 2^41 divided by a positive denominator fits.
proof fn lemma_root_fits(num: int, a: int)
    requires
        -0x200_0000_0000 <= num <= 0x200_0000_0000,
        a >= 1,
    ensures
        -0x200_0000_0000_0000 <= fx_div_spec(num, a) <= 0x200_0000_0000_0000,
{
    lemma_mul_mag(num, SCALE as int, 0x200_0000_0000, SCALE as int);
    lemma_tdiv_mag(num * SCALE, a, 0x2_0000_0000_0000_0000);
}

/// The outward normal (point minus center, divided by the radius) fits.
proof fn lemma_outward_fits(diff: V3, radius: int)
    requires
        in_mag(diff, 0xA00_0000),
        radius != 0,
        -(GEOM_MAX as int) <= radius <= GEOM_MAX as int,
    ensures
        -0x8_0000_0000_0000 <= fx_div_spec(diff.x, radius) <= 0x8_0000_0000_0000,
        -0x8_0000_0000_0000 <= fx_div_spec(diff.y, radius) <= 0x8_0000_0000_0000,
        -0x8_0000_0000_0000 <= fx_div_spec(diff.z, radius) <= 0x8_0000_0000_0000,
{
    lemma_outward_fits_one(diff.x, radius);
    lemma_outward_fits_one(diff.y, radius);
    lemma_outward_fits_one(diff.z, radius);
}

proof fn lemma_outward_fits_one(d: int, radius: int)
    requires
        -0xA00_0000 <= d <= 0xA00_0000,
        radius != 0,
        -(GEOM_MAX as int) <= radius <= GEOM_MAX as int,
    ensures
        -0x8_0000_0000_0000 <= fx_div_spec(d, radius) <= 0x8_0000_0000_0000,
{
    lemma_mul_mag(d, SCALE as int, 0xA00_0000, SCALE as int);
    if radius >= 1 {
        lemma_tdiv_mag(d * SCALE, radius, 0x8_0000_0000_0000);
    } else {
        lemma_tdiv_mag(d * SCALE, -radius, 0x8_0000_0000_0000);
        assert(crate::fixed::tdiv(d * SCALE, radius) == -crate::fixed::tdiv(
            d * SCALE,
            -radius,
        ));
    }
}

} // verus!
