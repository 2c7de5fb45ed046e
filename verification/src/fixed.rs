//! Fixed-point scalar arithmetic.
//!
//! A scalar is an `i64` holding `value * SCALE`, so one unit of real length
//! is `SCALE` raw steps. Multiplication and division rescale with
//! truncating (round-toward-zero) integer division, exactly as `/` behaves
//! on Rust's signed integers; `tdiv` is the specification-level image of
//! that operator.

use vstd::prelude::*;

verus! {

/// Raw steps per unit: a scalar `x` stores the integer `x * SCALE`.
pub const SCALE: i64 = 65536;

/// Truncating (round-toward-zero) division, the behaviour of `/` on
/// Rust's signed integers, expressed over mathematical integers.
pub open spec fn tdiv(a: int, b: int) -> int
    recommends
        b != 0,
{
    if a == 0 {
        0
    } else if a > 0 && b > 0 {
        a / b
    } else if a < 0 && b < 0 {
        (-a) / (-b)
    } else if a < 0 {
        -((-a) / b)
    } else {
        -(a / (-b))
    }
}

/// The fixed-point product: `(a * b) / SCALE`, truncated toward zero.
pub open spec fn fx_mul_spec(a: int, b: int) -> int {
    tdiv(a * b, SCALE as int)
}

/// The fixed-point quotient: `(a * SCALE) / b`, truncated toward zero.
pub open spec fn fx_div_spec(a: int, b: int) -> int {
    tdiv(a * SCALE, b)
}

/// `r` is the nonnegative integer square root of `n`.
pub open spec fn is_isqrt(n: int, r: int) -> bool {
    0 <= r && r * r <= n < (r + 1) * (r + 1)
}

/// The unique nonnegative integer square root of `n >= 0`.
pub open spec fn spec_isqrt(n: int) -> int {
    choose|r: int| is_isqrt(n, r)
}

/// The fixed-point square root: `sqrt(x / SCALE) * SCALE` truncated, which
/// over raw values is the integer square root of `x * SCALE`.
pub open spec fn sqrt_fx_spec(x: int) -> int {
    spec_isqrt(x * SCALE)
}

/// Clamping into `[lo, hi]`, testing with `<` and `>` in that order.
pub open spec fn spec_clamp(x: int, lo: int, hi: int) -> int {
    if x < lo {
        lo
    } else if x > hi {
        hi
    } else {
        x
    }
}

/// Truncating division negates along with its dividend.
pub proof fn lemma_tdiv_neg(a: int, b: int)
    requires
        b != 0,
    ensures
        tdiv(-a, b) == -tdiv(a, b),
{
}

/// A magnitude bound for truncating division: shrinking the dividend's
/// magnitude can only shrink the quotient's.
pub proof fn lemma_tdiv_mag(a: int, b: int, m: int)
    requires
        b >= 1,
        -m <= a <= m,
    ensures
        -(m / b) <= tdiv(a, b) <= m / b,
        m / b <= m,
{
    if a >= 0 {
        vstd::arithmetic::div_mod::lemma_div_pos_is_pos(a, b);
        vstd::arithmetic::div_mod::lemma_div_is_ordered(a, m, b);
    } else {
        vstd::arithmetic::div_mod::lemma_div_pos_is_pos(-a, b);
        vstd::arithmetic::div_mod::lemma_div_is_ordered(-a, m, b);
    }
    vstd::arithmetic::div_mod::lemma_div_pos_is_pos(m, b);
    vstd::arithmetic::div_mod::lemma_div_nonincreasing(m, b);
}

/// Truncating division leaves a remainder strictly smaller than the
/// divisor, on either side of zero.
pub proof fn lemma_tdiv_rem(a: int, b: int)
    requires
        b >= 1,
    ensures
        -(b - 1) <= a - b * tdiv(a, b) <= b - 1,
{
    if a >= 0 {
        vstd::arithmetic::div_mod::lemma_fundamental_div_mod(a, b);
        vstd::arithmetic::div_mod::lemma_mod_division_less_than_divisor(a, b);
    } else {
        vstd::arithmetic::div_mod::lemma_fundamental_div_mod(-a, b);
        vstd::arithmetic::div_mod::lemma_mod_division_less_than_divisor(-a, b);
        assert(b * -((-a) / b) == -(b * ((-a) / b))) by (nonlinear_arith);
    }
}

/// A magnitude bound for products.
pub proof fn lemma_mul_mag(a: int, b: int, ma: int, mb: int)
    requires
        -ma <= a <= ma,
        -mb <= b <= mb,
    ensures
        -(ma * mb) <= a * b <= ma * mb,
{
    assert(-(ma * mb) <= a * b <= ma * mb) by (nonlinear_arith)
        requires
            -ma <= a <= ma,
            -mb <= b <= mb,
    ;
}

/// The integer square root is unique, so any witness pins `spec_isqrt`.
pub proof fn lemma_isqrt_is(n: int, r: int)
    requires
        0 <= r,
        r * r <= n,
        n < (r + 1) * (r + 1),
    ensures
        spec_isqrt(n) == r,
{
    assert(is_isqrt(n, r));
    let c = spec_isqrt(n);
    assert(is_isqrt(n, c));
    assert(c == r) by (nonlinear_arith)
        requires
            0 <= r,
            r * r <= n < (r + 1) * (r + 1),
            0 <= c,
            c * c <= n < (c + 1) * (c + 1),
    ;
}

/// Every nonnegative integer has an integer square root, so
/// `spec_isqrt` denotes it.
pub proof fn lemma_isqrt_exists(n: int)
    requires
        n >= 0,
    ensures
        is_isqrt(n, spec_isqrt(n)),
    decreases n,
{
    if n == 0 {
        assert(is_isqrt(0, 0));
    } else {
        lemma_isqrt_exists(n - 1);
        let r = spec_isqrt(n - 1);
        if (r + 1) * (r + 1) <= n {
            assert(is_isqrt(n, r + 1)) by (nonlinear_arith)
                requires
                    0 <= r,
                    r * r <= n - 1 < (r + 1) * (r + 1),
                    (r + 1) * (r + 1) <= n,
            ;
        } else {
            assert(is_isqrt(n, r));
        }
        assert(exists|x: int| is_isqrt(n, x));
    }
}

/// A truncated fixed-point square is never negative.
pub proof fn lemma_fx_square_nonneg(x: int)
    ensures
        fx_mul_spec(x, x) >= 0,
{
    assert(x * x >= 0) by (nonlinear_arith);
    if x * x > 0 {
        vstd::arithmetic::div_mod::lemma_div_pos_is_pos(x * x, SCALE as int);
    }
}

/// Fixed-point multiplication. The product is formed in 128-bit
/// arithmetic, so only the final result must fit in an `i64`.
pub fn fx_mul(a: i64, b: i64) -> (r: i64)
    requires
        i64::MIN <= fx_mul_spec(a as int, b as int) <= i64::MAX,
    ensures
        r as int == fx_mul_spec(a as int, b as int),
{
    proof {
        lemma_mul_mag(a as int, b as int, 0x8000_0000_0000_0000, 0x8000_0000_0000_0000);
    }
    let p: i128 = (a as i128) * (b as i128);
    proof {
        lemma_tdiv_mag(p as int, SCALE as int, 0x4000_0000_0000_0000_0000_0000_0000_0000);
    }
    let q: i128 = match p.checked_div(SCALE as i128) {
        Some(q) => q,
        None => 0,
    };
    q as i64
}

/// Fixed-point division by an arbitrary nonzero scalar.
pub fn fx_div(a: i64, b: i64) -> (r: i64)
    requires
        b != 0,
        i64::MIN <= fx_div_spec(a as int, b as int) <= i64::MAX,
    ensures
        r as int == fx_div_spec(a as int, b as int),
{
    proof {
        lemma_mul_mag(a as int, SCALE as int, 0x8000_0000_0000_0000, 0x1_0000);
    }
    let p: i128 = (a as i128) * (SCALE as i128);
    proof {
        if b >= 1 {
            lemma_tdiv_mag(p as int, b as int, 0x8_0000_0000_0000_0000_0000);
        } else {
            lemma_tdiv_mag(p as int, -(b as int), 0x8_0000_0000_0000_0000_0000);
            assert(tdiv(p as int, b as int) == -tdiv(p as int, -(b as int)));
        }
    }
    let q: i128 = match p.checked_div(b as i128) {
        Some(q) => q,
        None => 0,
    };
    q as i64
}

/// The integer square root of a 128-bit value, by bisection.
pub fn isqrt_u128(n: u128) -> (r: u128)
    ensures
        r * r <= n < (r + 1) * (r + 1),
{
    let mut lo: u128 = 0;
    let mut hi: u128 = 0xFFFF_FFFF_FFFF_FFFF;
    proof {
        assert((0xFFFF_FFFF_FFFF_FFFFu128 + 1) * (0xFFFF_FFFF_FFFF_FFFFu128 + 1) > n)
            by (nonlinear_arith);
    }
    while lo < hi
        invariant
            lo <= hi <= 0xFFFF_FFFF_FFFF_FFFF,
            lo * lo <= n,
            n < (hi + 1) * (hi + 1),
        decreases hi - lo,
    {
        let mid: u128 = lo + (hi - lo + 1) / 2;
        proof {
            assert(lo < mid <= hi);
            assert(mid * mid < 0x1_0000_0000_0000_0000_0000_0000_0000_0000) by (nonlinear_arith)
                requires
                    mid <= 0xFFFF_FFFF_FFFF_FFFFu128,
            ;
        }
        if mid * mid <= n {
            lo = mid;
        } else {
            hi = mid - 1;
            proof {
                assert(n < (hi + 1) * (hi + 1));
            }
        }
    }
    lo
}

/// The fixed-point square root of a nonnegative scalar.
pub fn sqrt_fx(x: i64) -> (r: i64)
    requires
        x >= 0,
    ensures
        r as int == sqrt_fx_spec(x as int),
        is_isqrt(x * SCALE, r as int),
        r >= 0,
{
    proof {
        assert((x as u128) * (SCALE as u128) < 0x1_0000_0000_0000_0000_0000_0000u128)
            by (nonlinear_arith)
            requires
                x as u128 <= 0x8000_0000_0000_0000u128,
        ;
    }
    let n: u128 = (x as u128) * (SCALE as u128);
    let s = isqrt_u128(n);
    proof {
        assert(s < 0x1_0000_0000_0000) by (nonlinear_arith)
            requires
                s * s <= n,
                n < 0x1_0000_0000_0000_0000_0000_0000u128,
        ;
        lemma_isqrt_is(n as int, s as int);
    }
    s as i64
}


} // verus!
