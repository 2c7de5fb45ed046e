//! The virtual camera: a pinhole or thin-lens ray generator derived from
//! placement, field of view, aspect ratio and lens aperture.

use vstd::prelude::*;
use crate::fixed::SCALE;
use crate::fixed::spec_clamp;
use crate::fixed::fx_mul_spec;
use crate::fixed::fx_div_spec;
use crate::fixed::fx_mul;
use crate::fixed::fx_div;
use crate::fixed::lemma_mul_mag;
use crate::fixed::lemma_tdiv_mag;
use crate::ray::Point3;
use crate::ray::Ray;
use crate::ray::ray_wf;
use crate::rng::SampleRng;
use crate::rtweekend::degrees_to_radians;
use crate::rtweekend::spec_deg_to_rad;
use crate::rtweekend::random_vec_in_unit_sphere;
use crate::rtweekend::spec_sample_ball;
use crate::rtweekend::BALL_TRIES;
use crate::vec3::Vec3;
use crate::vec3::V3;
use crate::vec3::in_mag;
use crate::vec3::check_mag;
use crate::vec3::mk_vec3;
use crate::vec3::add_spec;
use crate::vec3::sub_spec;
use crate::vec3::scale_spec;
use crate::vec3::div_scale_spec;
use crate::vec3::cross_spec;
use crate::vec3::ls_spec;
use crate::vec3::normalized_spec;
use crate::vec3::lemma_cross_mag;
use crate::vec3::lemma_scale_mag;

verus! {

/// Largest viewport half-height factor the perspective keeps: a field of
/// view whose tangent would exceed 16 is clamped there.
pub const TAN_CAP: i64 = 0x10_0000;

/// The fixed-point sine of `x` (radians in `[0, pi/2]`), by the odd
/// Taylor series through the ninth power.
pub open spec fn spec_sin_fx(x: int) -> int {
    let x2 = fx_mul_spec(x, x);
    let x3 = fx_mul_spec(x2, x);
    let x5 = fx_mul_spec(x3, x2);
    let x7 = fx_mul_spec(x5, x2);
    let x9 = fx_mul_spec(x7, x2);
    x - fx_div_spec(x3, 6 * SCALE) + fx_div_spec(x5, 120 * SCALE) - fx_div_spec(
        x7,
        5040 * SCALE,
    ) + fx_div_spec(x9, 362880 * SCALE)
}

/// The fixed-point cosine of `x` (radians in `[0, pi/2]`), by the even
/// Taylor series through the eighth power.
pub open spec fn spec_cos_fx(x: int) -> int {
    let x2 = fx_mul_spec(x, x);
    let x4 = fx_mul_spec(x2, x2);
    let x6 = fx_mul_spec(x4, x2);
    let x8 = fx_mul_spec(x6, x2);
    SCALE - fx_div_spec(x2, 2 * SCALE) + fx_div_spec(x4, 24 * SCALE) - fx_div_spec(
        x6,
        720 * SCALE,
    ) + fx_div_spec(x8, 40320 * SCALE)
}

/// The tangent of half the angle `a` (radians), as sine over cosine,
/// clamped into `[1/SCALE, 16]`: a cosine driven to zero (or below, by
/// truncation, near a straight angle) falls back to the cap.
pub open spec fn spec_tan_half(a: int) -> int {
    let x = fx_mul_spec(a, 32768);
    let s = spec_sin_fx(x);
    let c = spec_cos_fx(x);
    if c < 1 {
        TAN_CAP as int
    } else {
        spec_clamp(fx_div_spec(s, c), 1, TAN_CAP as int)
    }
}

/// Simple virtual camera. The first eight fields are the placement
/// parameters; the rest is derived state, rebuilt as a whole whenever a
/// parameter changes.
#[derive(Clone, Copy, Debug, PartialEq, Eq, Structural)]
pub struct Camera {
    /// Viewport width, not adjusted for the field of view.
    pub width: i64,
    /// Viewport height, not adjusted for the field of view.
    pub height: i64,
    /// Vertical field of view in radians.
    pub vfov: i64,
    /// Aperture diameter for defocus blur; zero means a pinhole.
    pub aperture: i64,
    /// Distance to the focus plane.
    pub focus_distance: i64,
    pub lookfrom: Point3,
    pub lookat: Point3,
    pub up: Point3,
    pub w: Vec3,
    pub u: Vec3,
    pub v: Vec3,
    pub lower_left_corner: Point3,
    pub horizontal: Vec3,
    pub vertical: Vec3,
}

/// The placement parameters lie in the ranges the fixed-point
/// perspective arithmetic is proved overflow-free for: viewport sides in
/// `[1/2, 16]`, field of view in about `[0.9, 162]` degrees, aperture up
/// to 4, focus distance in `[1/4, 64]`, and placement points within 64
/// units of the origin.
pub open spec fn camera_params_wf(c: Camera) -> bool {
    &&& 0x8000 <= c.width <= 0x10_0000
    &&& 0x8000 <= c.height <= 0x10_0000
    &&& 1000 <= c.vfov <= 185000
    &&& 0 <= c.aperture <= 0x4_0000
    &&& 0x4000 <= c.focus_distance <= 0x40_0000
    &&& in_mag(c.lookfrom@, 0x40_0000)
    &&& in_mag(c.lookat@, 0x40_0000)
    &&& in_mag(c.up@, 0x40_0000)
}

/// The derived state is capped so that every generated ray stays within
/// the representable region.
pub open spec fn camera_wf(c: Camera) -> bool {
    &&& camera_params_wf(c)
    &&& in_mag(c.w@, 0x2_0000)
    &&& in_mag(c.u@, 0x2_0000)
    &&& in_mag(c.v@, 0x8_0000)
    &&& in_mag(c.horizontal@, 0x80_0000)
    &&& in_mag(c.vertical@, 0x80_0000)
    &&& in_mag(c.lower_left_corner@, 0x100_0000)
}

/// The derived state left by a placement that cannot be resolved (a
/// degenerate direction or up vector, or derived vectors outside their
/// caps): the axis-aligned two-by-two viewport at focus one.
pub open spec fn spec_fallback(c: Camera) -> Camera {
    Camera {
        w: Vec3 { x: 0, y: 0, z: SCALE },
        u: Vec3 { x: SCALE, y: 0, z: 0 },
        v: Vec3 { x: 0, y: SCALE, z: 0 },
        horizontal: Vec3 { x: (2 * SCALE) as i64, y: 0, z: 0 },
        vertical: Vec3 { x: 0, y: (2 * SCALE) as i64, z: 0 },
        lower_left_corner: Vec3 {
            x: (c.lookfrom@.x - SCALE) as i64,
            y: (c.lookfrom@.y - SCALE) as i64,
            z: (c.lookfrom@.z - SCALE) as i64,
        },
        ..c
    }
}

/// The derived state a placement resolves to: the orthonormal-up-to-
/// truncation basis from lookfrom/lookat/up, and the viewport frame
/// scaled by the field of view, aspect ratio and focus distance.
pub open spec fn spec_perspective(c: Camera) -> Camera {
    let aspect = fx_div_spec(c.width as int, c.height as int);
    let h = spec_tan_half(c.vfov as int);
    let vp_height = fx_mul_spec(c.height as int, h);
    let vp_width = fx_mul_spec(vp_height, aspect);
    let diff = sub_spec(c.lookfrom@, c.lookat@);
    if ls_spec(diff) < 1 {
        spec_fallback(c)
    } else {
        let w = normalized_spec(diff);
        let cu = cross_spec(c.up@, w);
        if ls_spec(cu) < 1 {
            spec_fallback(c)
        } else {
            let u = normalized_spec(cu);
            let v = cross_spec(w, u);
            let horizontal = scale_spec(scale_spec(u, vp_width), c.focus_distance as int);
            let vertical = scale_spec(scale_spec(v, vp_height), c.focus_distance as int);
            let llc = sub_spec(
                sub_spec(
                    sub_spec(c.lookfrom@, div_scale_spec(horizontal, 2 * SCALE)),
                    div_scale_spec(vertical, 2 * SCALE),
                ),
                scale_spec(w, c.focus_distance as int),
            );
            if !in_mag(horizontal, 0x80_0000) || !in_mag(vertical, 0x80_0000) || !in_mag(
                llc,
                0x100_0000,
            ) {
                spec_fallback(c)
            } else {
                Camera {
                    w: mk_vec3(w),
                    u: mk_vec3(u),
                    v: mk_vec3(v),
                    horizontal: mk_vec3(horizontal),
                    vertical: mk_vec3(vertical),
                    lower_left_corner: mk_vec3(llc),
                    ..c
                }
            }
        }
    }
}

/// A camera whose derived state is exactly what its placement resolves
/// to.
pub open spec fn camera_resolved(c: Camera) -> bool {
    c == spec_perspective(c)
}

/// The ray generated for `(u, v)` from generator state `s`, and the
/// state left behind: with a positive aperture one ball point is drawn
/// for the lens jitter; a pinhole draws nothing.
pub open spec fn spec_ray_state(c: Camera, u: int, v: int, s: u64) -> (Ray, u64) {
    if c.aperture > 0 {
        let d = spec_sample_ball(s, BALL_TRIES as nat);
        (spec_camera_ray(c, u, v, d.0), d.1)
    } else {
        (spec_camera_ray(c, u, v, V3 { x: 0, y: 0, z: 0 }), s)
    }
}

/// The ray the camera sends for normalized viewport coordinates
/// `(u, v)`: with a positive aperture its origin is jittered within the
/// lens disk using the in-sphere sample `jit`; it always aims at the
/// viewport point for `(u, v)` on the focus plane.
pub open spec fn spec_camera_ray(c: Camera, u: int, v: int, jit: V3) -> Ray {
    let origin = if c.aperture > 0 {
        let lens_radius = fx_mul_spec(c.aperture as int, 32768);
        let rx = fx_mul_spec(jit.x, lens_radius);
        let ry = fx_mul_spec(jit.y, lens_radius);
        add_spec(c.lookfrom@, add_spec(scale_spec(c.u@, rx), scale_spec(c.v@, ry)))
    } else {
        c.lookfrom@
    };
    let direction = sub_spec(
        add_spec(
            add_spec(c.lower_left_corner@, scale_spec(c.horizontal@, u)),
            scale_spec(c.vertical@, v),
        ),
        origin,
    );
    Ray { origin: mk_vec3(origin), direction: mk_vec3(direction) }
}

/// The fixed-point tangent of half the given angle (radians).
pub fn tan_half(a: i64) -> (r: i64)
    requires
        0 <= a <= 0x4_0000,
    ensures
        r as int == spec_tan_half(a as int),
        1 <= r <= TAN_CAP,
{
    proof {
        lemma_mul_mag(a as int, 32768, 0x4_0000, 0x8000);
        lemma_tdiv_mag(a * 32768, SCALE as int, 0x2_0000_0000);
        if a * 32768 > 0 {
            vstd::arithmetic::div_mod::lemma_div_pos_is_pos(a * 32768, SCALE as int);
        }
    }
    let x = fx_mul(a, 32768);
    proof {
        lemma_tan_powers_fit(x as int);
        lemma_taylor_term(fx_mul_spec(fx_mul_spec(x as int, x as int), x as int), 6 * SCALE);
    }
    let x2 = fx_mul(x, x);
    let x3 = fx_mul(x2, x);
    let x5 = fx_mul(x3, x2);
    let x7 = fx_mul(x5, x2);
    let x9 = fx_mul(x7, x2);
    proof {
        lemma_taylor_term(x5 as int, 120 * SCALE);
        lemma_taylor_term(x7 as int, 5040 * SCALE);
        lemma_taylor_term(x9 as int, 362880 * SCALE);
    }
    let s = x - fx_div(x3, 6 * SCALE) + fx_div(x5, 120 * SCALE) - fx_div(x7, 5040 * SCALE)
        + fx_div(x9, 362880 * SCALE);
    let x4 = fx_mul(x2, x2);
    let x6 = fx_mul(x4, x2);
    let x8 = fx_mul(x6, x2);
    proof {
        lemma_taylor_term(x2 as int, 2 * SCALE);
        lemma_taylor_term(x4 as int, 24 * SCALE);
        lemma_taylor_term(x6 as int, 720 * SCALE);
        lemma_taylor_term(x8 as int, 40320 * SCALE);
    }
    let c = SCALE - fx_div(x2, 2 * SCALE) + fx_div(x4, 24 * SCALE) - fx_div(x6, 720 * SCALE)
        + fx_div(x8, 40320 * SCALE);
    proof {
        assert(spec_cos_fx(x as int) == c as int);
        assert(spec_sin_fx(x as int) == s as int);
    }
    if c < 1 {
        TAN_CAP
    } else {
        proof {
            lemma_mul_mag(s as int, SCALE as int, 0x800_0000_0000, 0x1_0000);
            lemma_tdiv_mag(s * SCALE, c as int, 0x800_0000_0000_0000_0000);
        }
        crate::rtweekend::clamp(fx_div(s, c), 1, TAN_CAP)
    }
}

/// Bounds for the powers entering the Taylor series: with `x` at most
/// two units, every power and term stays far inside `i64`.
proof fn lemma_tan_powers_fit(x: int)
    requires
        0 <= x <= 0x2_0000,
    ensures
        0 <= fx_mul_spec(x, x) <= 0x4_0000,
        ({
            let x2 = fx_mul_spec(x, x);
            &&& 0 <= fx_mul_spec(x2, x) <= 0x8_0000
            &&& 0 <= fx_mul_spec(x2, x2) <= 0x10_0000
            &&& ({
                let x3 = fx_mul_spec(x2, x);
                let x4 = fx_mul_spec(x2, x2);
                &&& 0 <= fx_mul_spec(x3, x2) <= 0x20_0000
                &&& 0 <= fx_mul_spec(x4, x2) <= 0x40_0000
                &&& ({
                    let x5 = fx_mul_spec(x3, x2);
                    let x6 = fx_mul_spec(x4, x2);
                    &&& 0 <= fx_mul_spec(x5, x2) <= 0x80_0000
                    &&& 0 <= fx_mul_spec(x6, x2) <= 0x100_0000
                    &&& ({
                        let x7 = fx_mul_spec(x5, x2);
                        &&& 0 <= fx_mul_spec(x7, x2) <= 0x200_0000
                    })
                })
            })
        }),
{
    lemma_power_step(x, x, 0x2_0000, 0x2_0000);
    let x2 = fx_mul_spec(x, x);
    lemma_power_step(x2, x, 0x4_0000, 0x2_0000);
    lemma_power_step(x2, x2, 0x4_0000, 0x4_0000);
    let x3 = fx_mul_spec(x2, x);
    let x4 = fx_mul_spec(x2, x2);
    lemma_power_step(x3, x2, 0x8_0000, 0x4_0000);
    lemma_power_step(x4, x2, 0x10_0000, 0x4_0000);
    let x5 = fx_mul_spec(x3, x2);
    let x6 = fx_mul_spec(x4, x2);
    lemma_power_step(x5, x2, 0x20_0000, 0x4_0000);
    lemma_power_step(x6, x2, 0x40_0000, 0x4_0000);
    let x7 = fx_mul_spec(x5, x2);
    lemma_power_step(x7, x2, 0x80_0000, 0x4_0000);
}

/// One Taylor term: a nonnegative capped power divided by a positive
/// constant stays nonnegative and capped.
proof fn lemma_taylor_term(xn: int, d: int)
    requires
        0 <= xn <= 0x200_0000,
        1 <= d,
    ensures
        0 <= fx_div_spec(xn, d) <= 0x200_0000_0000,
{
    lemma_mul_mag(xn, SCALE as int, 0x200_0000, 0x1_0000);
    lemma_tdiv_mag(xn * SCALE, d, 0x200_0000_0000);
    if xn * SCALE > 0 {
        vstd::arithmetic::div_mod::lemma_div_pos_is_pos(xn * SCALE, d);
    }
}

/// One power step: the product of nonnegative capped factors is
/// nonnegative and capped by the rescaled product of the caps.
proof fn lemma_power_step(a: int, b: int, ma: int, mb: int)
    requires
        0 <= a <= ma,
        0 <= b <= mb,
    ensures
        0 <= fx_mul_spec(a, b) <= (ma * mb) / (SCALE as int),
        (ma * mb) / (SCALE as int) <= ma * mb,
{
    lemma_mul_mag(a, b, ma, mb);
    lemma_tdiv_mag(a * b, SCALE as int, ma * mb);
    assert(a * b >= 0) by (nonlinear_arith)
        requires
            a >= 0,
            b >= 0,
    ;
    if a * b > 0 {
        vstd::arithmetic::div_mod::lemma_div_pos_is_pos(a * b, SCALE as int);
    }
}

impl Camera {
    /// Create a new pinhole camera with default placement: at the
    /// origin, looking down the negative z axis, with a 90 degree
    /// vertical field of view and no defocus blur.
    pub fn new(width: i64, height: i64) -> (r: Camera)
        requires
            0x8000 <= width <= 0x10_0000,
            0x8000 <= height <= 0x10_0000,
        ensures
            camera_wf(r),
            camera_resolved(r),
            r.width == width,
            r.height == height,
            r.vfov as int == spec_deg_to_rad(90 * SCALE),
            r.aperture == 0,
            r.focus_distance == SCALE,
            r.lookfrom@ == (V3 { x: 0, y: 0, z: 0 }),
            r.lookat@ == (V3 { x: 0, y: 0, z: -(SCALE as int) }),
            r.up@ == (V3 { x: 0, y: (SCALE as int), z: 0 }),
    {
        let lookfrom = Vec3::new(0, 0, 0);
        let lookat = Vec3::new(0, 0, -SCALE);
        let up = Vec3::new(0, SCALE, 0);
        let vfov = degrees_to_radians(90 * SCALE);
        let mut camera = Camera {
            width,
            height,
            vfov,
            aperture: 0,
            focus_distance: SCALE,
            lookfrom,
            lookat,
            up,
            w: Vec3::new(0, 0, 0),
            u: Vec3::new(0, 0, 0),
            v: Vec3::new(0, 0, 0),
            lower_left_corner: Vec3::new(0, 0, 0),
            horizontal: Vec3::new(0, 0, 0),
            vertical: Vec3::new(0, 0, 0),
        };
        camera.update_perspective();
        camera
    }

    /// Adjusts the camera position.
    pub fn lookfrom(self, lookfrom: Vec3) -> (r: Camera)
        requires
            camera_params_wf(self),
            in_mag(lookfrom@, 0x40_0000),
        ensures
            camera_wf(r),
            camera_resolved(r),
            r == spec_perspective(Camera { lookfrom, ..self }),
            r.lookfrom == lookfrom,
            r.lookat == self.lookat,
            r.up == self.up,
            r.width == self.width,
            r.height == self.height,
            r.vfov == self.vfov,
            r.aperture == self.aperture,
            r.focus_distance == self.focus_distance,
    {
        let mut c = self;
        c.lookfrom = lookfrom;
        c.update_perspective();
        c
    }

    /// Adjusts the camera target point.
    pub fn lookat(self, lookat: Vec3) -> (r: Camera)
        requires
            camera_params_wf(self),
            in_mag(lookat@, 0x40_0000),
        ensures
            camera_wf(r),
            camera_resolved(r),
            r == spec_perspective(Camera { lookat, ..self }),
            r.lookat == lookat,
            r.lookfrom == self.lookfrom,
    {
        let mut c = self;
        c.lookat = lookat;
        c.update_perspective();
        c
    }

    /// Adjusts the up vector (pointing towards the sky).
    pub fn up(self, up: Vec3) -> (r: Camera)
        requires
            camera_params_wf(self),
            in_mag(up@, 0x40_0000),
        ensures
            camera_wf(r),
            camera_resolved(r),
            r == spec_perspective(Camera { up, ..self }),
            r.up == up,
    {
        let mut c = self;
        c.up = up;
        c.update_perspective();
        c
    }

    /// Adjusts the vertical field of view, in degrees.
    pub fn vfov(self, degrees: i64) -> (r: Camera)
        requires
            camera_params_wf(self),
            SCALE <= degrees <= 160 * SCALE,
        ensures
            camera_wf(r),
            camera_resolved(r),
            r == spec_perspective(
                Camera { vfov: spec_deg_to_rad(degrees as int) as i64, ..self },
            ),
            r.vfov as int == spec_deg_to_rad(degrees as int),
            r.lookfrom == self.lookfrom,
            r.lookat == self.lookat,
            r.up == self.up,
            r.width == self.width,
            r.height == self.height,
            r.aperture == self.aperture,
            r.focus_distance == self.focus_distance,
    {
        proof {
            lemma_vfov_range(degrees as int);
        }
        let radians = degrees_to_radians(degrees);
        proof {
            assert(spec_deg_to_rad(degrees as int) as i64 == radians);
        }
        let mut c = self;
        c.vfov = radians;
        c.update_perspective();
        c
    }

    /// Adjusts the lens: aperture diameter and focus distance.
    pub fn lens(self, aperture: i64, focus_dist: i64) -> (r: Camera)
        requires
            camera_params_wf(self),
            0 <= aperture <= 0x4_0000,
            0x4000 <= focus_dist <= 0x40_0000,
        ensures
            camera_wf(r),
            camera_resolved(r),
            r == spec_perspective(
                Camera { aperture, focus_distance: focus_dist, ..self },
            ),
            r.aperture == aperture,
            r.focus_distance == focus_dist,
    {
        let mut c = self;
        c.aperture = aperture;
        c.focus_distance = focus_dist;
        c.update_perspective();
        c
    }

    /// Returns the ray for a given horizontal/vertical viewport offset.
    /// With a positive aperture the origin is jittered within the lens
    /// disk, which produces defocus blur.
    pub fn ray(&self, u: i64, v: i64, rng: &mut SampleRng) -> (r: Ray)
        requires
            camera_wf(*self),
            0 <= u <= 2 * SCALE,
            0 <= v <= 2 * SCALE,
        ensures
            ray_wf(r),
            r == spec_ray_state(*self, u as int, v as int, old(rng).state).0,
            final(rng).state == spec_ray_state(*self, u as int, v as int, old(rng).state).1,
    {
        let origin: Point3;
        let ghost mut jit: V3 = V3 { x: 0, y: 0, z: 0 };
        if self.aperture > 0 {
            let random = random_vec_in_unit_sphere(rng);
            proof {
                jit = random@;
                lemma_mul_mag(self.aperture as int, 32768, 0x4_0000, 0x8000);
                lemma_tdiv_mag((self.aperture as int) * 32768, SCALE as int, 0x2_0000_0000);
            }
            let lens_radius = fx_mul(self.aperture, 32768);
            proof {
                lemma_mul_mag(random@.x, lens_radius as int, 0x1_0000, 0x2_0000);
                lemma_tdiv_mag(random@.x * (lens_radius as int), SCALE as int, 0x2_0000_0000);
                lemma_mul_mag(random@.y, lens_radius as int, 0x1_0000, 0x2_0000);
                lemma_tdiv_mag(random@.y * (lens_radius as int), SCALE as int, 0x2_0000_0000);
            }
            let rx = fx_mul(random.x(), lens_radius);
            let ry = fx_mul(random.y(), lens_radius);
            proof {
                lemma_scale_mag(self.u@, rx as int, 0x2_0000, 0x2_0000);
                lemma_scale_mag(self.v@, ry as int, 0x8_0000, 0x2_0000);
            }
            let offset = self.u.mul(rx).add(self.v.mul(ry));
            origin = self.lookfrom.add(offset);
        } else {
            origin = self.lookfrom;
        }
        proof {
            lemma_scale_mag(self.horizontal@, u as int, 0x80_0000, 0x2_0000);
            lemma_scale_mag(self.vertical@, v as int, 0x80_0000, 0x2_0000);
        }
        let direction = self.lower_left_corner.add(self.horizontal.mul(u)).add(
            self.vertical.mul(v),
        ).sub(origin);
        let r = Ray::new(origin, direction);
        proof {
            assert(mk_vec3(origin@) == origin);
            assert(mk_vec3(direction@) == direction);
            assert(r == spec_camera_ray(*self, u as int, v as int, jit));
        }
        r
    }

    /// Rebuild the derived state from the placement parameters. A
    /// placement that cannot be resolved (degenerate vectors, or a frame
    /// outside the representable caps) falls back to the axis-aligned
    /// default frame.
    fn update_perspective(&mut self)
        requires
            camera_params_wf(*old(self)),
        ensures
            *final(self) == spec_perspective(*old(self)),
            camera_wf(*final(self)),
            camera_resolved(*final(self)),
    {
        proof {
            lemma_mul_mag(self.width as int, SCALE as int, 0x10_0000, 0x1_0000);
            lemma_tdiv_mag((self.width as int) * SCALE, self.height as int, 0x100_0000_0000);
            vstd::arithmetic::div_mod::lemma_div_is_ordered_by_denominator(
                0x100_0000_0000,
                0x8000,
                self.height as int,
            );
            if (self.width as int) * SCALE > 0 {
                vstd::arithmetic::div_mod::lemma_div_pos_is_pos(
                    (self.width as int) * SCALE,
                    self.height as int,
                );
            }
        }
        let aspect_ratio = fx_div(self.width, self.height);
        let h = tan_half(self.vfov);
        proof {
            lemma_mul_mag(self.height as int, h as int, 0x10_0000, 0x10_0000);
            lemma_tdiv_mag((self.height as int) * (h as int), SCALE as int, 0x100_0000_0000);
        }
        let vp_height = fx_mul(self.height, h);
        proof {
            lemma_mul_mag(vp_height as int, aspect_ratio as int, 0x100_0000, 0x200_0000);
            lemma_tdiv_mag(
                (vp_height as int) * (aspect_ratio as int),
                SCALE as int,
                0x20_0000_0000_0000,
            );
        }
        let vp_width = fx_mul(vp_height, aspect_ratio);
        let diff = self.lookfrom.sub(self.lookat);
        let diff_ls = diff.length_squared();
        if diff_ls < 1 {
            self.apply_fallback();
            return ;
        }
        let w = diff.normalized();
        proof {
            lemma_cross_mag(self.up@, w@, 0x40_0000, 0x2_0000);
        }
        let cu = Vec3::cross(&self.up, &w);
        let cu_ls = cu.length_squared();
        if cu_ls < 1 {
            self.apply_fallback();
            return ;
        }
        let u = cu.normalized();
        proof {
            lemma_cross_mag(w@, u@, 0x2_0000, 0x2_0000);
        }
        let v = Vec3::cross(&w, &u);
        proof {
            lemma_scale_mag(u@, vp_width as int, 0x2_0000, 0x20_0000_0000);
            lemma_scale_mag(
                scale_spec(u@, vp_width as int),
                self.focus_distance as int,
                0x40_0000_0000,
                0x40_0000,
            );
            lemma_scale_mag(v@, vp_height as int, 0x8_0000, 0x100_0000);
            lemma_scale_mag(
                scale_spec(v@, vp_height as int),
                self.focus_distance as int,
                0x800_0000,
                0x40_0000,
            );
        }
        let horizontal = u.mul(vp_width).mul(self.focus_distance);
        let vertical = v.mul(vp_height).mul(self.focus_distance);
        proof {
            lemma_halve_vec(horizontal@, 0x1000_0000_0000);
            lemma_halve_vec(vertical@, 0x1000_0000_0000);
            lemma_scale_mag(w@, self.focus_distance as int, 0x2_0000, 0x40_0000);
        }
        let lower_left_corner = self.lookfrom.sub(horizontal.div(2 * SCALE)).sub(
            vertical.div(2 * SCALE),
        ).sub(w.mul(self.focus_distance));
        if !check_mag(&horizontal, 0x80_0000) || !check_mag(&vertical, 0x80_0000)
            || !check_mag(&lower_left_corner, 0x100_0000) {
            self.apply_fallback();
            return ;
        }
        self.w = w;
        self.u = u;
        self.v = v;
        self.horizontal = horizontal;
        self.vertical = vertical;
        self.lower_left_corner = lower_left_corner;
        proof {
            assert(mk_vec3(w@) == w);
            assert(mk_vec3(u@) == u);
            assert(mk_vec3(v@) == v);
            assert(mk_vec3(horizontal@) == horizontal);
            assert(mk_vec3(vertical@) == vertical);
            assert(mk_vec3(lower_left_corner@) == lower_left_corner);
        }
    }

    /// Install the fallback frame.
    fn apply_fallback(&mut self)
        requires
            camera_params_wf(*old(self)),
        ensures
            *final(self) == spec_fallback(*old(self)),
            camera_wf(*final(self)),
    {
        self.w = Vec3::new(0, 0, SCALE);
        self.u = Vec3::new(SCALE, 0, 0);
        self.v = Vec3::new(0, SCALE, 0);
        self.horizontal = Vec3::new(2 * SCALE, 0, 0);
        self.vertical = Vec3::new(0, 2 * SCALE, 0);
        self.lower_left_corner = Vec3::new(
            self.lookfrom.x - SCALE,
            self.lookfrom.y - SCALE,
            self.lookfrom.z - SCALE,
        );
    }
}

/// Halving a capped vector keeps it capped.
proof fn lemma_halve_vec(a: V3, ma: int)
    requires
        in_mag(a, ma),
        0 <= ma,
    ensures
        in_mag(div_scale_spec(a, 2 * SCALE), ma),
{
    lemma_mul_mag(a.x, SCALE as int, ma, SCALE as int);
    lemma_mul_mag(a.y, SCALE as int, ma, SCALE as int);
    lemma_mul_mag(a.z, SCALE as int, ma, SCALE as int);
    lemma_tdiv_mag(a.x * SCALE, 2 * SCALE, ma * SCALE);
    lemma_tdiv_mag(a.y * SCALE, 2 * SCALE, ma * SCALE);
    lemma_tdiv_mag(a.z * SCALE, 2 * SCALE, ma * SCALE);
    vstd::arithmetic::div_mod::lemma_div_is_ordered(
        ma * SCALE,
        ma * (2 * SCALE),
        2 * SCALE,
    );
    vstd::arithmetic::div_mod::lemma_div_multiples_vanish(ma, 2 * SCALE);
    assert(ma * SCALE <= ma * (2 * SCALE)) by (nonlinear_arith)
        requires
            0 <= ma,
            SCALE == 65536,
    ;
    assert(ma * (2 * SCALE) == (2 * SCALE) * ma) by (nonlinear_arith);
}

/// Converting a field of view in `[1, 160]` degrees lands in the radian
/// range the perspective accepts.
proof fn lemma_vfov_range(degrees: int)
    requires
        (SCALE as int) <= degrees <= 160 * SCALE,
    ensures
        1000 <= spec_deg_to_rad(degrees) <= 185000,
{
    lemma_mul_mag(degrees, crate::rtweekend::PI_RAW as int, 160 * SCALE, 0x4_0000);
    vstd::arithmetic::div_mod::lemma_div_is_ordered(
        65536int * 205887,
        degrees * (crate::rtweekend::PI_RAW as int),
        SCALE as int,
    );
    vstd::arithmetic::div_mod::lemma_div_is_ordered(
        degrees * (crate::rtweekend::PI_RAW as int),
        10485760int * 205887,
        SCALE as int,
    );
    assert(65536 * 205887 <= degrees * (crate::rtweekend::PI_RAW as int) <= 10485760
        * 205887) by (nonlinear_arith)
        requires
            65536 <= degrees <= 10485760,
            crate::rtweekend::PI_RAW == 205887,
    ;
    let t = crate::fixed::fx_mul_spec(degrees, crate::rtweekend::PI_RAW as int);
    assert(205887 <= t <= 32941920);
    vstd::arithmetic::div_mod::lemma_div_is_ordered(
        205887int * 65536,
        t * SCALE,
        180 * SCALE,
    );
    vstd::arithmetic::div_mod::lemma_div_is_ordered(t * SCALE, 32941920int * 65536, 180 * SCALE);
    assert(205887 * 65536 <= t * SCALE <= 32941920 * 65536) by (nonlinear_arith)
        requires
            205887 <= t <= 32941920,
            SCALE == 65536,
    ;
    assert(spec_deg_to_rad(degrees) == crate::fixed::tdiv(t * SCALE, 180 * SCALE));
}

} // verus!
