//! A small deterministic pseudo-random number generator.
//!
//! The sampler needs a stream of uniform values that is independent per
//! pixel worker and reproducible from a seed, so the generator is a
//! verified xorshift-with-multiply over a 64-bit state: the next state
//! and the next output are stated exactly as functions of the current
//! state.

use vstd::prelude::*;

verus! {

/// The multiplier finishing each xorshift step.
pub const OUTPUT_MULTIPLIER: u64 = 0x2545_F491_4F6C_DD1D;

/// The state a zero seed is replaced with: a zero xorshift state would
/// stay zero forever.
pub const ZERO_SEED_STATE: u64 = 0x9E37_79B9_7F4A_7C15;

/// The product of two 64-bit values, keeping the low 64 bits.
pub open spec fn wmul64(a: u64, b: u64) -> u64 {
    ((a as nat * b as nat) % 0x1_0000_0000_0000_0000nat) as u64
}

/// One xorshift step of the generator state.
#[verifier::opaque]
pub open spec fn spec_mix(s: u64) -> u64 {
    let a = s ^ (s >> 12);
    let b = a ^ (a << 25);
    b ^ (b >> 27)
}

/// The output drawn while stepping from state `s`.
#[verifier::opaque]
pub open spec fn spec_output(s: u64) -> u64 {
    wmul64(spec_mix(s), OUTPUT_MULTIPLIER)
}

/// The value `gen_range(lo, hi)` returns when drawing from state `s`.
#[verifier::opaque]
pub open spec fn spec_range(s: u64, lo: int, hi: int) -> int {
    lo + (spec_output(s) as int) % (hi - lo)
}

/// A seedable uniform random source. Every draw is pinned to the state
/// it was made from, so a render fed from a fixed seed is reproducible.
#[derive(Clone, Copy, Debug, PartialEq, Eq, Structural)]
pub struct SampleRng {
    pub state: u64,
}

impl SampleRng {
    /// Create a generator from a seed. Equal seeds give equal streams.
    pub fn from_seed(seed: u64) -> (r: SampleRng)
        ensures
            r.state == if seed == 0 {
                ZERO_SEED_STATE
            } else {
                seed
            },
    {
        if seed == 0 {
            SampleRng { state: ZERO_SEED_STATE }
        } else {
            SampleRng { state: seed }
        }
    }

    /// Create a generator seeded from the ambient random source, for
    /// renders that need not be reproducible. Each call starts an
    /// independent stream, so per-thread generators stay uncorrelated.
    pub fn from_entropy() -> (r: SampleRng)
        ensures
            r.state != 0,
    {
        let hi = crate::rtweekend::random(0, i64::MAX);
        let lo = crate::rtweekend::random(0, i64::MAX);
        let seed = ((hi as u64) << 33) ^ (lo as u64);
        SampleRng::from_seed(seed)
    }

    /// Draw the next 64-bit value and advance the state.
    pub fn next_u64(&mut self) -> (r: u64)
        ensures
            final(self).state == spec_mix(old(self).state),
            r == spec_output(old(self).state),
    {
        proof {
            reveal(spec_mix);
            reveal(spec_output);
        }
        let s0 = self.state;
        let a = s0 ^ (s0 >> 12);
        let b = a ^ (a << 25);
        let c = b ^ (b >> 27);
        self.state = c;
        c.wrapping_mul(OUTPUT_MULTIPLIER)
    }

    /// Draw a uniform value in `[lo, hi)`.
    pub fn gen_range(&mut self, lo: i64, hi: i64) -> (r: i64)
        requires
            lo < hi,
            hi - lo <= i64::MAX,
        ensures
            lo <= r < hi,
            r as int == spec_range(old(self).state, lo as int, hi as int),
            final(self).state == spec_mix(old(self).state),
    {
        proof {
            reveal(spec_range);
        }
        let span: u64 = (hi - lo) as u64;
        let draw = self.next_u64();
        let off = draw % span;
        proof {
            assert(off < span);
            assert(off as int == (spec_output(old(self).state) as int) % (hi - lo));
        }
        lo + (off as i64)
    }
}

} // verus!
