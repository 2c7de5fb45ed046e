//! Small shared utilities: angle conversion, clamping, and the random
//! point inside the unit sphere that the diffuse and fuzzy materials
//! sample from.

use vstd::prelude::*;
use crate::fixed::SCALE;
use crate::fixed::spec_clamp;
use crate::fixed::fx_mul_spec;
use crate::fixed::fx_div_spec;
use crate::fixed::fx_mul;
use crate::fixed::fx_div;
use crate::fixed::lemma_mul_mag;
use crate::fixed::lemma_tdiv_mag;
use crate::rng::SampleRng;
use crate::rng::spec_mix;
use crate::rng::spec_range;
use crate::vec3::Vec3;
use crate::vec3::in_mag;
use crate::vec3::ls_spec;

verus! {

/// Pi in fixed-point raw steps: round(pi * SCALE).
pub const PI_RAW: i64 = 205887;

/// Generate a random number in the range `[lo, hi)`.
///
/// Relies on rand's `Rng::gen_range` over the thread-local generator:
/// on a half-open integer range it returns a value within the range and
/// panics only when the range is empty, which the precondition rules
/// out. Nothing more can be promised of a random draw.
#[verifier::external_body]
pub fn random(lo: i64, hi: i64) -> (r: i64)
    requires
        lo < hi,
    ensures
        lo <= r < hi,
{
    rand::Rng::gen_range(&mut rand::thread_rng(), lo..hi)
}

/// Degrees to radians: `d * pi / 180`, as fixed-point arithmetic
/// evaluates it.
pub open spec fn spec_deg_to_rad(d: int) -> int {
    fx_div_spec(fx_mul_spec(d, PI_RAW as int), 180 * SCALE)
}

/// Convert degrees to radians.
pub fn degrees_to_radians(degrees: i64) -> (r: i64)
    requires
        -0x1_0000_0000 <= degrees <= 0x1_0000_0000,
    ensures
        r as int == spec_deg_to_rad(degrees as int),
{
    proof {
        lemma_mul_mag(degrees as int, PI_RAW as int, 0x1_0000_0000, 0x4_0000);
        lemma_tdiv_mag(degrees * (PI_RAW as int), SCALE as int, 0x4_0000_0000_0000);
        lemma_mul_mag(
            fx_mul_spec(degrees as int, PI_RAW as int),
            SCALE as int,
            0x4_0000_0000_0000,
            0x1_0000,
        );
        lemma_tdiv_mag(
            fx_mul_spec(degrees as int, PI_RAW as int) * SCALE,
            180 * SCALE,
            0x4_0000_0000_0000_0000,
        );
    }
    fx_div(fx_mul(degrees, PI_RAW), 180 * SCALE)
}

/// Clamp a value so it falls inside the given range.
pub fn clamp(x: i64, min: i64, max: i64) -> (r: i64)
    ensures
        r as int == spec_clamp(x as int, min as int, max as int),
{
    if x < min {
        min
    } else if x > max {
        max
    } else {
        x
    }
}

/// A nondegenerate point inside the unit sphere: componentwise within
/// one unit, squared length under one, and at least one raw step long
/// (so it can be normalized).
pub open spec fn in_unit_ball(w: crate::vec3::V3) -> bool {
    &&& in_mag(w, SCALE as int)
    &&& 1 <= ls_spec(w) < SCALE
}

/// The number of rejection draws a unit-sphere sample may make before
/// falling back to a fixed interior point; each draw succeeds with
/// probability about one half, so the budget is never exhausted in
/// practice, but a bound makes the sampler a total function of the
/// generator state.
pub const BALL_TRIES: u32 = 10000;

/// One candidate triple drawn from generator state `s` (three uniform
/// draws in `[-1, 1)`), and the state after drawing it.
pub open spec fn spec_draw_triple(s: u64) -> (crate::vec3::V3, u64) {
    let s1 = spec_mix(s);
    let s2 = spec_mix(s1);
    (
        crate::vec3::V3 {
            x: spec_range(s, -(SCALE as int), SCALE as int),
            y: spec_range(s1, -(SCALE as int), SCALE as int),
            z: spec_range(s2, -(SCALE as int), SCALE as int),
        },
        spec_mix(s2),
    )
}

/// The unit-sphere sample drawn from generator state `s` with `tries`
/// draws left: the first candidate triple inside the (nondegenerate)
/// unit ball, paired with the state after it; an exhausted budget falls
/// back to the point half a unit along x without drawing further.
#[verifier::opaque]
pub open spec fn spec_sample_ball(s: u64, tries: nat) -> (crate::vec3::V3, u64)
    decreases tries,
{
    if tries == 0 {
        (crate::vec3::V3 { x: 32768, y: 0, z: 0 }, s)
    } else {
        let d = spec_draw_triple(s);
        if in_unit_ball(d.0) {
            d
        } else {
            spec_sample_ball(d.1, (tries - 1) as nat)
        }
    }
}

/// Find a random vector in the unit sphere: draw uniformly from the
/// enclosing cube and retry while the point falls outside the sphere (or
/// inside the degenerate center cell, which could not be normalized).
/// The result and the generator's new state are exactly the first
/// accepted triple of the deterministic draw stream.
#[verifier::rlimit(50)]
pub fn random_vec_in_unit_sphere(rng: &mut SampleRng) -> (r: Vec3)
    ensures
        in_unit_ball(r@),
        r@ == spec_sample_ball(old(rng).state, BALL_TRIES as nat).0,
        final(rng).state == spec_sample_ball(old(rng).state, BALL_TRIES as nat).1,
{
    let mut tries: u32 = BALL_TRIES;
    while tries > 0
        invariant
            spec_sample_ball(old(rng).state, BALL_TRIES as nat) == spec_sample_ball(
                rng.state,
                tries as nat,
            ),
        decreases tries,
    {
        let ghost st: u64 = rng.state;
        let x = rng.gen_range(-SCALE, SCALE);
        let y = rng.gen_range(-SCALE, SCALE);
        let z = rng.gen_range(-SCALE, SCALE);
        let vec = Vec3::new3(x, y, z);
        proof {
            assert(vec@ == spec_draw_triple(st).0);
            assert(rng.state == spec_draw_triple(st).1);
        }
        let ls = vec.length_squared();
        if 1 <= ls && ls < SCALE {
            proof {
                reveal_with_fuel(spec_sample_ball, 1);
                assert(in_unit_ball(vec@));
                assert(spec_sample_ball(st, tries as nat) == (vec@, rng.state));
            }
            return vec;
        }
        proof {
            reveal_with_fuel(spec_sample_ball, 1);
            assert(!in_unit_ball(vec@));
            assert(spec_sample_ball(st, tries as nat) == spec_sample_ball(
                rng.state,
                (tries - 1) as nat,
            ));
        }
        tries = tries - 1;
    }
    let fallback = Vec3::new3(32768, 0, 0);
    proof {
        let w0 = fallback@;
        assert(w0.x * w0.x == 0x4000_0000 && w0.y * w0.y == 0 && w0.z * w0.z == 0)
            by (nonlinear_arith)
            requires
                w0 == (crate::vec3::V3 { x: 32768, y: 0, z: 0 }),
        ;
        assert(ls_spec(w0) == 16384);
        reveal_with_fuel(spec_sample_ball, 1);
        assert(spec_sample_ball(rng.state, 0) == (w0, rng.state));
    }
    fallback
}

} // verus!
