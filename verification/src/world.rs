//! The scene: an ordered collection of (sphere, material) pairs, and
//! nearest-hit resolution over it.

use vstd::prelude::*;
use crate::hittable::HitRecord;
use crate::hittable::hit_wf;
use crate::material::Material;
use crate::material::material_wf;
use crate::ray::Ray;
use crate::ray::T_LIMIT;
use crate::ray::ray_wf;
use crate::sphere::Sphere;
use crate::sphere::sphere_wf;
use crate::sphere::spec_is_hit;
use crate::vec3::dot_spec;

verus! {

/// The scene being rendered: surfaces paired with their materials, in
/// insertion order.
pub struct World {
    pub objects: Vec<(Sphere, Material)>,
}

/// Every object of the scene is well formed: sphere within the
/// representable region, material parameters in range.
pub open spec fn world_wf(w: World) -> bool {
    forall|i: int|
        0 <= i < w.objects@.len() ==> {
            let o = #[trigger] w.objects@[i];
            sphere_wf(o.0) && material_wf(o.1)
        }
}

/// Nearest-hit resolution from object `i` on, carrying the best hit so
/// far: each object is tested against the interval shrunk to the best
/// parameter, and only a strictly smaller parameter replaces the
/// carried hit — on an exact tie the earlier object wins.
pub open spec fn spec_trace_from(
    objs: Seq<(Sphere, Material)>,
    i: int,
    ray: Ray,
    t_min: int,
    t_max: int,
    cur: Option<(HitRecord, Material)>,
) -> Option<(HitRecord, Material)>
    decreases objs.len() - i,
{
    if i < 0 || i >= objs.len() {
        cur
    } else {
        let bound = match cur {
            Some((h, _)) => h.t as int,
            None => t_max,
        };
        let next = match spec_is_hit(objs[i].0, ray, t_min, bound) {
            Some(h) => match cur {
                Some((hc, _)) => if h.t < hc.t {
                    Some((h, objs[i].1))
                } else {
                    cur
                },
                None => Some((h, objs[i].1)),
            },
            None => cur,
        };
        spec_trace_from(objs, i + 1, ray, t_min, t_max, next)
    }
}

/// The nearest hit of the ray among all objects, within
/// `[t_min, t_max]`.
pub open spec fn spec_trace(
    objs: Seq<(Sphere, Material)>,
    ray: Ray,
    t_min: int,
    t_max: int,
) -> Option<(HitRecord, Material)> {
    spec_trace_from(objs, 0, ray, t_min, t_max, None)
}

/// An empty scene is never hit.
pub proof fn lemma_trace_empty(objs: Seq<(Sphere, Material)>, ray: Ray, t_min: int, t_max: int)
    requires
        objs.len() == 0,
    ensures
        spec_trace(objs, ray, t_min, t_max) is None,
{
}

impl World {
    /// Create an empty scene.
    pub fn new() -> (r: World)
        ensures
            r.objects@.len() == 0,
            world_wf(r),
    {
        World { objects: Vec::new() }
    }

    /// Add a surface with its material to the scene.
    pub fn add(&mut self, sphere: Sphere, material: Material)
        requires
            sphere_wf(sphere),
            material_wf(material),
            world_wf(*old(self)),
        ensures
            final(self).objects@ == old(self).objects@.push((sphere, material)),
            world_wf(*final(self)),
    {
        self.objects.push((sphere, material));
    }

    /// Find the nearest hit of the ray among all objects within
    /// `[t_min, t_max]`: each candidate is tested against an interval
    /// shrunk to the best hit found so far, and must strictly beat it.
    pub fn trace(&self, ray: &Ray, t_min: i64, t_max: i64) -> (r: Option<(HitRecord, Material)>)
        requires
            world_wf(*self),
            ray_wf(*ray),
            0 <= t_min,
            t_max <= T_LIMIT,
        ensures
            r == spec_trace(self.objects@, *ray, t_min as int, t_max as int),
            r matches Some((h, m)) ==> {
                &&& hit_wf(h)
                &&& material_wf(m)
                &&& t_min <= h.t <= t_max
                &&& dot_spec(ray.direction@, h.normal@) <= 0
            },
    {
        let mut hit: Option<(HitRecord, Material)> = None;
        let n = self.objects.len();
        let mut i: usize = 0;
        while i < n
            invariant
                0 <= i <= n,
                n == self.objects@.len(),
                world_wf(*self),
                ray_wf(*ray),
                0 <= t_min,
                t_max <= T_LIMIT,
                spec_trace(self.objects@, *ray, t_min as int, t_max as int)
                    == spec_trace_from(
                    self.objects@,
                    i as int,
                    *ray,
                    t_min as int,
                    t_max as int,
                    hit,
                ),
                hit matches Some((h, m)) ==> {
                    &&& hit_wf(h)
                    &&& material_wf(m)
                    &&& t_min <= h.t <= t_max
                    &&& dot_spec(ray.direction@, h.normal@) <= 0
                },
            decreases n - i,
        {
            let (sphere, material) = self.objects[i];
            let cur_t_max = match &hit {
                Some((rec, _)) => rec.t,
                None => t_max,
            };
            match sphere.is_hit(ray, t_min, cur_t_max) {
                Some(rec) => {
                    let replace = match &hit {
                        Some((best, _)) => rec.t < best.t,
                        None => true,
                    };
                    if replace {
                        hit = Some((rec, material));
                    }
                },
                None => {},
            }
            i = i + 1;
        }
        hit
    }
}

} // verus!
