//! Rays in 3D space.

use vstd::prelude::*;
use crate::fixed::SCALE;
use crate::fixed::fx_mul_spec;
use crate::vec3::Vec3;
use crate::vec3::V3;
use crate::vec3::GEOM_MAX;
use crate::vec3::in_mag;
use crate::vec3::add_spec;
use crate::vec3::scale_spec;
use crate::fixed::lemma_mul_mag;
use crate::fixed::lemma_tdiv_mag;

verus! {

/// A point in 3D space.
pub type Point3 = Vec3;

/// The largest ray parameter the tracer ever works with: 2^40 raw steps,
/// or 2^24 units of distance, far beyond any representable scene.
pub const T_LIMIT: i64 = 0x100_0000_0000;

/// A ray can be represented as the function P(t) = A + t*b, where P is a
/// 3D position along a line in 3D space, A is the ray origin and b is the
/// ray direction.
#[derive(Clone, Copy, Debug, PartialEq, Eq, Structural)]
pub struct Ray {
    pub origin: Point3,
    pub direction: Vec3,
}

/// A ray whose origin and direction lie within the representable
/// region, so intersection arithmetic cannot overflow: the origin may
/// sit anywhere a hit point can (up to the margin past the scene
/// region), the direction within the scene region itself.
pub open spec fn ray_wf(r: Ray) -> bool {
    &&& in_mag(r.origin@, crate::vec3::POINT_MAX as int)
    &&& in_mag(r.direction@, GEOM_MAX as int)
}

/// The position on a ray at parameter `t`: origin + t * direction.
pub open spec fn at_spec(r: Ray, t: int) -> V3 {
    add_spec(r.origin@, scale_spec(r.direction@, t))
}

impl Ray {
    /// Create a new ray in 3D space.
    pub fn new(origin: Point3, direction: Vec3) -> (r: Ray)
        ensures
            r.origin == origin,
            r.direction == direction,
    {
        Ray { origin, direction }
    }

    /// Returns the origin.
    pub fn origin(&self) -> (r: Point3)
        ensures
            r == self.origin,
    {
        self.origin
    }

    /// Returns the direction.
    pub fn direction(&self) -> (r: Vec3)
        ensures
            r == self.direction,
    {
        self.direction
    }

    /// Returns the position on the ray given `t`.
    pub fn at(&self, t: i64) -> (r: Point3)
        requires
            ray_wf(*self),
            -T_LIMIT <= t <= T_LIMIT,
        ensures
            r@ == at_spec(*self, t as int),
    {
        proof {
            lemma_at_fits(*self, t as int);
        }
        self.origin.add(self.direction.mul(t))
    }
}

/// Evaluating a well-formed ray at a capped parameter stays within `i64`.
pub proof fn lemma_at_fits(r: Ray, t: int)
    requires
        ray_wf(r),
        -(T_LIMIT as int) <= t <= T_LIMIT as int,
    ensures
        -0x40_0000_0000_0000 <= fx_mul_spec(r.direction@.x, t) <= 0x40_0000_0000_0000,
        -0x40_0000_0000_0000 <= fx_mul_spec(r.direction@.y, t) <= 0x40_0000_0000_0000,
        -0x40_0000_0000_0000 <= fx_mul_spec(r.direction@.z, t) <= 0x40_0000_0000_0000,
{
    lemma_mul_mag(r.direction@.x, t, GEOM_MAX as int, T_LIMIT as int);
    lemma_mul_mag(r.direction@.y, t, GEOM_MAX as int, T_LIMIT as int);
    lemma_mul_mag(r.direction@.z, t, GEOM_MAX as int, T_LIMIT as int);
    lemma_tdiv_mag(r.direction@.x * t, SCALE as int, 0x400_0000_0000_0000_0000);
    lemma_tdiv_mag(r.direction@.y * t, SCALE as int, 0x400_0000_0000_0000_0000);
    lemma_tdiv_mag(r.direction@.z * t, SCALE as int, 0x400_0000_0000_0000_0000);
}

} // verus!
