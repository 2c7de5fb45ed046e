//! The path-tracing integrator: recursive color evaluation combining
//! intersection, scattering and background shading, the per-pixel
//! multi-sample loop, and the final tone mapping.

use vstd::prelude::*;
use crate::camera::Camera;
use crate::camera::camera_wf;
use crate::camera::spec_ray_state;
use crate::color::Color;
use crate::fixed::SCALE;
use crate::fixed::spec_clamp;
use crate::fixed::fx_mul_spec;
use crate::fixed::fx_div_spec;
use crate::fixed::sqrt_fx_spec;
use crate::fixed::fx_mul;
use crate::fixed::fx_div;
use crate::fixed::sqrt_fx;
use crate::fixed::lemma_mul_mag;
use crate::fixed::lemma_tdiv_mag;
use crate::material::color_wf;
use crate::material::spec_scatter_material;
use crate::ray::Ray;
use crate::ray::T_LIMIT;
use crate::ray::ray_wf;
use crate::rng::SampleRng;
use crate::rng::spec_mix;
use crate::rng::spec_range;
use crate::rtweekend::clamp;
use crate::vec3::Vec3;
use crate::vec3::V3;
use crate::vec3::add_spec;
use crate::vec3::div_scale_spec;
use crate::vec3::scale_spec;
use crate::vec3::ls_spec;
use crate::vec3::normalized_spec;
use crate::world::World;
use crate::world::world_wf;
use crate::world::spec_trace;

verus! {

/// The smallest ray parameter a bounce accepts: about 0.001 units.
/// Reflected rays otherwise hit the surface they just left, at a
/// parameter just above zero ("shadow acne").
pub const T_MIN_RAY: i64 = 66;

/// The sky-blue the background blends toward at the zenith:
/// (0.5, 0.7, 1.0).
pub open spec fn spec_sky_blue() -> V3 {
    V3 { x: 32768, y: 45875, z: SCALE as int }
}

/// The background color of a ray that escapes the scene: a vertical
/// blend between white at the horizon and sky-blue at the zenith, keyed
/// by the unit direction's y component mapped into `[0, 1]`.
pub open spec fn spec_background(ray: Ray) -> V3 {
    let unit = normalized_spec(ray.direction@);
    let t = spec_clamp(fx_mul_spec(32768, unit.y + SCALE), 0, SCALE as int);
    add_spec(
        scale_spec(V3 { x: SCALE as int, y: SCALE as int, z: SCALE as int }, SCALE - t),
        scale_spec(spec_sky_blue(), t),
    )
}

/// One channel of the displayable value of a linear color channel:
/// gamma-corrected with gamma two (a square root), clamped strictly
/// below one, and scaled to the 8-bit range by truncation.
pub open spec fn spec_tone_channel(c: int) -> int {
    fx_mul_spec(spec_clamp(sqrt_fx_spec(c), 0, 65470), 256)
}

/// The color of one ray evaluated from generator state `s`, and the
/// state left behind: black when the bounce budget is exhausted or the
/// direction degenerate; the background blend on a miss; otherwise the
/// scattered evaluation one bounce deeper, attenuated componentwise, or
/// black when the surface absorbed the ray.
pub open spec fn spec_ray_color(ray: Ray, world: World, depth: nat, s: u64) -> (V3, u64)
    decreases depth,
{
    if depth == 0 {
        (V3 { x: 0, y: 0, z: 0 }, s)
    } else if ls_spec(ray.direction@) == 0 {
        (V3 { x: 0, y: 0, z: 0 }, s)
    } else {
        match spec_trace(world.objects@, ray, T_MIN_RAY as int, T_LIMIT as int) {
            None => (spec_background(ray), s),
            Some((rec, m)) => {
                let sc = spec_scatter_material(m, ray, rec, s);
                match sc.0 {
                    None => (V3 { x: 0, y: 0, z: 0 }, sc.1),
                    Some((scat, att)) => {
                        let rc = spec_ray_color(scat, world, (depth - 1) as nat, sc.1);
                        (
                            V3 {
                                x: fx_mul_spec(rc.0.x, att@.x),
                                y: fx_mul_spec(rc.0.y, att@.y),
                                z: fx_mul_spec(rc.0.z, att@.z),
                            },
                            rc.1,
                        )
                    },
                }
            },
        }
    }
}

/// Compute the color seen along a ray: recursively scatter off the
/// nearest surface, multiplying by each bounce's attenuation, until the
/// bounce budget runs out (black), the ray is absorbed (black), or it
/// escapes into the background gradient.
pub fn ray_color(ray: &Ray, world: &World, depth: usize, rng: &mut SampleRng) -> (r: Color)
    requires
        world_wf(*world),
        ray_wf(*ray),
    ensures
        color_wf(r@),
        r@ == spec_ray_color(*ray, *world, depth as nat, old(rng).state).0,
        final(rng).state == spec_ray_color(*ray, *world, depth as nat, old(rng).state).1,
        depth == 0 ==> r@ == (V3 { x: 0, y: 0, z: 0 }),
        depth > 0 && ls_spec(ray.direction@) == 0 ==> r@ == (V3 { x: 0, y: 0, z: 0 }),
        depth > 0 && ls_spec(ray.direction@) >= 1 && spec_trace(
            world.objects@,
            *ray,
            T_MIN_RAY as int,
            T_LIMIT as int,
        ) is None ==> r@ == spec_background(*ray),
        depth == 1 && ls_spec(ray.direction@) >= 1 && spec_trace(
            world.objects@,
            *ray,
            T_MIN_RAY as int,
            T_LIMIT as int,
        ) is Some ==> r@ == (V3 { x: 0, y: 0, z: 0 }),
    decreases depth,
{
    if depth == 0 {
        // Ray bounce limit exceeded: no more light is reflected.
        return Vec3::new(0, 0, 0);
    }
    proof {
        crate::vec3::lemma_ls_nonneg(ray.direction@);
    }
    let ls = ray.direction().length_squared();
    if ls == 0 {
        // A degenerate scatter direction cannot be traced or normalized.
        return Vec3::new(0, 0, 0);
    }
    match world.trace(ray, T_MIN_RAY, T_LIMIT) {
        Some((rec, material)) => {
            match material.scatter(ray, &rec, rng) {
                Some((scatter, attenuation)) => {
                    let scatter_color = ray_color(&scatter, world, depth - 1, rng);
                    proof {
                        lemma_channel_product(scatter_color@.x, attenuation@.x);
                        lemma_channel_product(scatter_color@.y, attenuation@.y);
                        lemma_channel_product(scatter_color@.z, attenuation@.z);
                        if depth == 1 {
                            assert(0 * attenuation@.x == 0) by (nonlinear_arith);
                            assert(0 * attenuation@.y == 0) by (nonlinear_arith);
                            assert(0 * attenuation@.z == 0) by (nonlinear_arith);
                        }
                    }
                    Vec3::new(
                        fx_mul(scatter_color.x(), attenuation.x()),
                        fx_mul(scatter_color.y(), attenuation.y()),
                        fx_mul(scatter_color.z(), attenuation.z()),
                    )
                },
                None => Vec3::new(0, 0, 0),
            }
        },
        None => {
            let unit_direction = ray.direction().normalized();
            proof {
                lemma_mul_mag(32768, unit_direction@.y + SCALE, 32768, 0x3_0000);
                lemma_tdiv_mag(
                    32768 * (unit_direction@.y + SCALE),
                    SCALE as int,
                    0x1_8000_0000,
                );
            }
            let t = clamp(fx_mul(32768, unit_direction.y() + SCALE), 0, SCALE);
            proof {
                lemma_blend_channel(SCALE as int, t as int);
                lemma_blend_channel(32768, t as int);
                lemma_blend_channel(45875, t as int);
            }
            let white = Vec3::new(SCALE, SCALE, SCALE);
            let blue = Vec3::new(32768, 45875, SCALE);
            white.mul(SCALE - t).add(blue.mul(t))
        },
    }
}

/// One pixel sample from generator state `s`: two draws jitter the
/// pixel coordinates, the camera turns them into a ray (drawing lens
/// jitter if it has an aperture), and the ray is evaluated.
pub open spec fn spec_pixel_sample(
    cam: Camera,
    world: World,
    px: int,
    py: int,
    w: int,
    h: int,
    depth: nat,
    s: u64,
) -> (V3, u64) {
    let ju = spec_range(s, 0, SCALE as int);
    let s1 = spec_mix(s);
    let jv = spec_range(s1, 0, SCALE as int);
    let s2 = spec_mix(s1);
    let u = fx_div_spec(px * SCALE + ju, (w - 1) * SCALE);
    let v = fx_div_spec(py * SCALE + jv, (h - 1) * SCALE);
    let rs = spec_ray_state(cam, u, v, s2);
    spec_ray_color(rs.0, world, depth, rs.1)
}

/// The sum of the first `n` pixel samples drawn from state `s`, and the
/// state after them.
pub open spec fn spec_accumulate(
    cam: Camera,
    world: World,
    px: int,
    py: int,
    w: int,
    h: int,
    n: nat,
    depth: nat,
    s: u64,
) -> (V3, u64)
    decreases n,
{
    if n == 0 {
        (V3 { x: 0, y: 0, z: 0 }, s)
    } else {
        let first = spec_pixel_sample(cam, world, px, py, w, h, depth, s);
        let rest = spec_accumulate(cam, world, px, py, w, h, (n - 1) as nat, depth, first.1);
        (add_spec(first.0, rest.0), rest.1)
    }
}

/// The per-pixel estimate drawn from state `s`: the truncated average
/// of `samples` jittered evaluations, and the state after them.
pub open spec fn spec_render_pixel(
    cam: Camera,
    world: World,
    px: int,
    py: int,
    w: int,
    h: int,
    samples: nat,
    depth: nat,
    s: u64,
) -> (V3, u64) {
    let acc = spec_accumulate(cam, world, px, py, w, h, samples, depth, s);
    (div_scale_spec(acc.0, samples * SCALE), acc.1)
}

/// Estimate the color of one pixel: average `samples` independent
/// evaluations of `ray_color` through camera rays jittered within the
/// pixel. The estimate is pinned to the generator state, so renders
/// from equal seeds reproduce every pixel bit for bit.
pub fn render_pixel(
    camera: &Camera,
    world: &World,
    px: usize,
    py: usize,
    width: usize,
    height: usize,
    samples: usize,
    depth: usize,
    rng: &mut SampleRng,
) -> (r: Color)
    requires
        camera_wf(*camera),
        world_wf(*world),
        2 <= width <= 65536,
        2 <= height <= 65536,
        px < width,
        py < height,
        1 <= samples <= 65536,
    ensures
        color_wf(r@),
        depth == 0 ==> r@ == (V3 { x: 0, y: 0, z: 0 }),
        r@ == spec_render_pixel(
            *camera,
            *world,
            px as int,
            py as int,
            width as int,
            height as int,
            samples as nat,
            depth as nat,
            old(rng).state,
        ).0,
        final(rng).state == spec_render_pixel(
            *camera,
            *world,
            px as int,
            py as int,
            width as int,
            height as int,
            samples as nat,
            depth as nat,
            old(rng).state,
        ).1,
{
    let mut color = Vec3::new(0, 0, 0);
    let mut s: usize = 0;
    while s < samples
        invariant
            s <= samples <= 65536,
            camera_wf(*camera),
            world_wf(*world),
            2 <= width <= 65536,
            2 <= height <= 65536,
            px < width,
            py < height,
            0 <= color@.x <= (s as int) * (SCALE as int),
            0 <= color@.y <= (s as int) * (SCALE as int),
            0 <= color@.z <= (s as int) * (SCALE as int),
            depth == 0 ==> color@ == (V3 { x: 0, y: 0, z: 0 }),
            ({
                let total = spec_accumulate(
                    *camera,
                    *world,
                    px as int,
                    py as int,
                    width as int,
                    height as int,
                    samples as nat,
                    depth as nat,
                    old(rng).state,
                );
                let rem = spec_accumulate(
                    *camera,
                    *world,
                    px as int,
                    py as int,
                    width as int,
                    height as int,
                    (samples - s) as nat,
                    depth as nat,
                    rng.state,
                );
                total.0 == add_spec(color@, rem.0) && total.1 == rem.1
            }),
        decreases samples - s,
    {
        let ju = rng.gen_range(0, SCALE);
        let jv = rng.gen_range(0, SCALE);
        proof {
            lemma_pixel_coord(px as int, ju as int, width as int);
            lemma_pixel_coord(py as int, jv as int, height as int);
        }
        let u = fx_div((px as i64) * SCALE + ju, ((width - 1) as i64) * SCALE);
        let v = fx_div((py as i64) * SCALE + jv, ((height - 1) as i64) * SCALE);
        let ray = camera.ray(u, v, rng);
        let sample = ray_color(&ray, world, depth, rng);
        proof {
            assert((s as int) * (SCALE as int) + SCALE <= (s + 1) * (SCALE as int))
                by (nonlinear_arith)
                requires
                    SCALE == 65536,
            ;
        }
        color = color.add(sample);
        s = s + 1;
    }
    let n = samples as i64;
    proof {
        lemma_average_channel(color@.x, n as int);
        lemma_average_channel(color@.y, n as int);
        lemma_average_channel(color@.z, n as int);
    }
    color.div(n * SCALE)
}

/// Map a linear color into display bytes: gamma-correct each channel
/// with gamma two, clamp strictly below one, and scale to `[0, 255]`.
pub fn tone_map(color: &Color) -> (r: (u8, u8, u8))
    requires
        color_wf(color@),
    ensures
        r.0 as int == spec_tone_channel(color@.x),
        r.1 as int == spec_tone_channel(color@.y),
        r.2 as int == spec_tone_channel(color@.z),
{
    (tone_channel(color.x()), tone_channel(color.y()), tone_channel(color.z()))
}

/// One channel of the tone mapping.
fn tone_channel(c: i64) -> (r: u8)
    requires
        0 <= c <= SCALE,
    ensures
        r as int == spec_tone_channel(c as int),
{
    let s = sqrt_fx(c);
    proof {
        assert(s <= 65536) by (nonlinear_arith)
            requires
                0 <= s,
                (s as int) * (s as int) <= (c as int) * (SCALE as int),
                0 <= c <= 65536,
                SCALE == 65536,
        ;
    }
    let clamped = clamp(s, 0, 65470);
    proof {
        lemma_mul_mag(clamped as int, 256, 65470, 256);
        lemma_tdiv_mag((clamped as int) * 256, SCALE as int, 16760320);
        if (clamped as int) * 256 > 0 {
            vstd::arithmetic::div_mod::lemma_div_pos_is_pos(
                (clamped as int) * 256,
                SCALE as int,
            );
        }
    }
    let b = fx_mul(clamped, 256);
    b as u8
}

/// The product of two channels in `[0, 1]` stays in `[0, 1]`.
proof fn lemma_channel_product(c: int, a: int)
    requires
        0 <= c <= SCALE,
        0 <= a <= SCALE,
    ensures
        0 <= fx_mul_spec(c, a) <= SCALE,
{
    assert(0 <= c * a <= 0x1_0000_0000) by (nonlinear_arith)
        requires
            0 <= c <= 65536,
            0 <= a <= 65536,
            SCALE == 65536,
    ;
    lemma_tdiv_mag(c * a, SCALE as int, 0x1_0000_0000);
    if c * a > 0 {
        vstd::arithmetic::div_mod::lemma_div_pos_is_pos(c * a, SCALE as int);
    }
}

/// One channel of the background blend stays in `[0, 1]`: the white
/// part contributes exactly `1 - t` and the blue part at most `t`.
proof fn lemma_blend_channel(b: int, t: int)
    requires
        0 <= b <= SCALE,
        0 <= t <= SCALE,
    ensures
        fx_mul_spec(SCALE as int, SCALE - t) == SCALE - t,
        0 <= fx_mul_spec(b, t) <= t,
        0 <= fx_mul_spec(SCALE as int, SCALE - t) + fx_mul_spec(b, t) <= SCALE,
{
    vstd::arithmetic::div_mod::lemma_div_multiples_vanish(SCALE - t, SCALE as int);
    assert((SCALE as int) * (SCALE - t) >= 0) by (nonlinear_arith)
        requires
            0 <= t <= SCALE,
    ;
    assert(0 <= b * t <= (SCALE as int) * t) by (nonlinear_arith)
        requires
            0 <= b <= SCALE,
            0 <= t,
    ;
    vstd::arithmetic::div_mod::lemma_div_is_ordered(b * t, (SCALE as int) * t, SCALE as int);
    vstd::arithmetic::div_mod::lemma_div_multiples_vanish(t, SCALE as int);
    if b * t > 0 {
        vstd::arithmetic::div_mod::lemma_div_pos_is_pos(b * t, SCALE as int);
    }
}

/// A jittered pixel coordinate lands within twice the viewport.
proof fn lemma_pixel_coord(p: int, j: int, n: int)
    requires
        0 <= p < n,
        2 <= n <= 65536,
        0 <= j < SCALE,
    ensures
        0 <= fx_div_spec(p * SCALE + j, (n - 1) * SCALE) <= 2 * SCALE,
        1 <= (n - 1) * (SCALE as int) <= 0x1_0000_0000,
        -0x1_0000_0000_0000 <= (p * SCALE + j) * SCALE <= 0x1_0000_0000_0000,
{
    assert(0 <= p * SCALE + j && (p * SCALE + j) <= n * SCALE - 1 && n * SCALE <= 2 * (
    (n - 1) * SCALE) && 1 <= (n - 1) * SCALE <= 0x1_0000_0000) by (nonlinear_arith)
        requires
            0 <= p < n,
            2 <= n <= 65536,
            0 <= j < SCALE,
            SCALE == 65536,
    ;
    lemma_mul_mag(p * SCALE + j, SCALE as int, 0x1_0000_0000, 0x1_0000);
    assert(0 <= (p * SCALE + j) * SCALE <= (2 * ((n - 1) * SCALE)) * SCALE)
        by (nonlinear_arith)
        requires
            0 <= p * SCALE + j <= 2 * ((n - 1) * SCALE),
            SCALE == 65536,
    ;
    assert((2 * ((n - 1) * SCALE)) * SCALE == ((n - 1) * SCALE) * (2 * SCALE))
        by (nonlinear_arith);
    vstd::arithmetic::div_mod::lemma_div_is_ordered(
        (p * SCALE + j) * SCALE,
        ((n - 1) * SCALE) * (2 * SCALE),
        (n - 1) * SCALE,
    );
    vstd::arithmetic::div_mod::lemma_div_multiples_vanish(2 * SCALE, (n - 1) * SCALE);
    if (p * SCALE + j) * SCALE > 0 {
        vstd::arithmetic::div_mod::lemma_div_pos_is_pos(
            (p * SCALE + j) * SCALE,
            (n - 1) * SCALE,
        );
    }
}

/// The truncated average of channels summing to at most `n` stays in
/// `[0, 1]`.
proof fn lemma_average_channel(cx: int, n: int)
    requires
        0 <= cx <= n * SCALE,
        1 <= n <= 65536,
    ensures
        0 <= fx_div_spec(cx, n * SCALE) <= SCALE,
        1 <= n * (SCALE as int) <= 0x1_0000_0000,
        -0x1_0000_0000_0000 <= cx * SCALE <= 0x1_0000_0000_0000,
{
    assert(1 <= n * SCALE <= 0x1_0000_0000 && 0 <= cx <= 0x1_0000_0000) by (nonlinear_arith)
        requires
            0 <= cx <= n * SCALE,
            1 <= n <= 65536,
            SCALE == 65536,
    ;
    lemma_mul_mag(cx, SCALE as int, 0x1_0000_0000, 0x1_0000);
    assert(0 <= cx * SCALE <= (n * SCALE) * SCALE) by (nonlinear_arith)
        requires
            0 <= cx <= n * SCALE,
            SCALE == 65536,
    ;
    assert((n * SCALE) * SCALE == (n * SCALE) * (SCALE as int)) by (nonlinear_arith);
    vstd::arithmetic::div_mod::lemma_div_is_ordered(
        cx * SCALE,
        (n * SCALE) * (SCALE as int),
        n * SCALE,
    );
    vstd::arithmetic::div_mod::lemma_div_multiples_vanish(SCALE as int, n * SCALE);
    if cx * SCALE > 0 {
        vstd::arithmetic::div_mod::lemma_div_pos_is_pos(cx * SCALE, n * SCALE);
    }
}

} // verus!
