//! The result of a ray/object intersection test.

use vstd::prelude::*;
use crate::ray::Point3;
use crate::ray::Ray;
use crate::vec3::Vec3;
use crate::vec3::V3;
use crate::vec3::VMAX;
use crate::vec3::in_mag;
use crate::vec3::mk_vec3;
use crate::vec3::neg_spec;
use crate::vec3::dot_spec;
use crate::vec3::lemma_dot_neg;

verus! {

/// What a successful intersection test reports: the hit point, the
/// surface normal there (oriented against the incoming ray), the ray
/// parameter of the hit, and whether the outward face was struck.
#[derive(Clone, Copy, Debug, PartialEq, Eq, Structural)]
pub struct HitRecord {
    pub point: Point3,
    pub normal: Vec3,
    pub t: i64,
    pub front_face: bool,
}

/// A hit record whose point lies in the representable scene region and
/// whose normal is capped: what the intersection tests report and the
/// materials assume.
pub open spec fn hit_wf(h: HitRecord) -> bool {
    &&& in_mag(h.point@, crate::vec3::POINT_MAX as int)
    &&& in_mag(h.normal@, crate::vec3::NORMAL_MAX as int)
}

/// The record built for a hit at `p` with outward normal `on` at
/// parameter `t`: the stored normal is `on` flipped, if need be, to point
/// against the incoming ray.
pub open spec fn spec_hit_record(p: V3, on: V3, t: int, ray: Ray) -> HitRecord {
    let ff = dot_spec(ray.direction@, on) < 0;
    HitRecord {
        point: mk_vec3(p),
        normal: if ff {
            mk_vec3(on)
        } else {
            mk_vec3(neg_spec(on))
        },
        t: t as i64,
        front_face: ff,
    }
}

impl HitRecord {
    /// Create a new hit record.
    ///
    /// The outward normal always points away from the object; the stored
    /// normal is set up so that it always points against the incident
    /// ray, and `front_face` records which case held.
    pub fn new(point: Point3, outward_normal: Vec3, t: i64, ray: &Ray) -> (r: HitRecord)
        requires
            in_mag(ray.direction@, VMAX as int),
            in_mag(outward_normal@, VMAX as int),
        ensures
            r == spec_hit_record(point@, outward_normal@, t as int, *ray),
            dot_spec(ray.direction@, r.normal@) <= 0,
    {
        let dot = Vec3::dot(&ray.direction(), &outward_normal);
        let front_face = dot < 0;
        let normal = if front_face {
            outward_normal
        } else {
            outward_normal.neg()
        };
        proof {
            lemma_dot_neg(ray.direction@, outward_normal@);
            assert(mk_vec3(point@) == point);
            assert(mk_vec3(outward_normal@) == outward_normal);
        }
        HitRecord { point, normal, t, front_face }
    }
}

} // verus!
