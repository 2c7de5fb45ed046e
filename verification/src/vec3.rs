//! A simple vector in 3D space, with fixed-point components.
//!
//! The mathematical image of a vector is `V3`, a triple of unbounded
//! integers (raw fixed-point values); every executable operation states its
//! result exactly over `V3`.

use vstd::prelude::*;
use crate::fixed::SCALE;
use crate::fixed::tdiv;
use crate::fixed::fx_mul_spec;
use crate::fixed::fx_div_spec;
use crate::fixed::sqrt_fx_spec;
use crate::fixed::fx_mul;
use crate::fixed::fx_div;
use crate::fixed::sqrt_fx;
use crate::fixed::lemma_mul_mag;
use crate::fixed::lemma_tdiv_mag;

verus! {

/// Magnitude cap under which the componentwise vector operations are free
/// of overflow: 2^30 raw steps, or 16384 units of length.
pub const VMAX: i64 = 0x4000_0000;

/// Magnitude cap for scene geometry (sphere centers, radii, ray origins
/// and directions): 2^26 raw steps, or 1024 units of length. Intersection
/// arithmetic on values under this cap stays within `i64`.
pub const GEOM_MAX: i64 = 0x400_0000;

/// Magnitude cap for surface normals handed to the materials: two units
/// of length. A sphere's outward normal is a unit vector up to truncation,
/// so real normals sit well under this cap.
pub const NORMAL_MAX: i64 = 0x2_0000;

/// Magnitude cap for hit points and ray origins: one and a half times
/// the scene region. Every admitted surface lies wholly inside the
/// scene region, so this cap keeps a 512-unit margin beyond any point a
/// ray can actually strike.
pub const POINT_MAX: i64 = 0x600_0000;

/// The mathematical value of a vector: its raw components as unbounded
/// integers.
pub struct V3 {
    pub x: int,
    pub y: int,
    pub z: int,
}

/// A simple vector in 3D space.
#[derive(Clone, Copy, Debug, PartialEq, Eq, Structural)]
pub struct Vec3 {
    pub x: i64,
    pub y: i64,
    pub z: i64,
}

impl View for Vec3 {
    type V = V3;

    open spec fn view(&self) -> V3 {
        V3 { x: self.x as int, y: self.y as int, z: self.z as int }
    }
}

/// All three components lie in `[-m, m]`.
pub open spec fn in_mag(a: V3, m: int) -> bool {
    &&& -m <= a.x <= m
    &&& -m <= a.y <= m
    &&& -m <= a.z <= m
}

pub open spec fn add_spec(a: V3, b: V3) -> V3 {
    V3 { x: a.x + b.x, y: a.y + b.y, z: a.z + b.z }
}

pub open spec fn sub_spec(a: V3, b: V3) -> V3 {
    V3 { x: a.x - b.x, y: a.y - b.y, z: a.z - b.z }
}

pub open spec fn neg_spec(a: V3) -> V3 {
    V3 { x: -a.x, y: -a.y, z: -a.z }
}

/// Scaling by a fixed-point scalar, componentwise.
pub open spec fn scale_spec(a: V3, k: int) -> V3 {
    V3 { x: fx_mul_spec(a.x, k), y: fx_mul_spec(a.y, k), z: fx_mul_spec(a.z, k) }
}

/// Division by a fixed-point scalar, componentwise.
pub open spec fn div_scale_spec(a: V3, k: int) -> V3 {
    V3 { x: fx_div_spec(a.x, k), y: fx_div_spec(a.y, k), z: fx_div_spec(a.z, k) }
}

/// The fixed-point dot product: the sum of the componentwise raw products,
/// rescaled once.
pub open spec fn dot_spec(a: V3, b: V3) -> int {
    tdiv(a.x * b.x + a.y * b.y + a.z * b.z, SCALE as int)
}

/// The squared length: a vector dotted with itself.
pub open spec fn ls_spec(a: V3) -> int {
    dot_spec(a, a)
}

/// The length: the fixed-point square root of the squared length.
pub open spec fn len_spec(a: V3) -> int {
    sqrt_fx_spec(ls_spec(a))
}

/// The right-handed cross product.
pub open spec fn cross_spec(a: V3, b: V3) -> V3 {
    V3 {
        x: fx_mul_spec(a.y, b.z) - fx_mul_spec(a.z, b.y),
        y: fx_mul_spec(a.z, b.x) - fx_mul_spec(a.x, b.z),
        z: fx_mul_spec(a.x, b.y) - fx_mul_spec(a.y, b.x),
    }
}

/// The unit-length vector in the direction of `a`: `a` divided by its
/// length. Meaningless when the length is zero; callers must guard.
pub open spec fn normalized_spec(a: V3) -> V3 {
    div_scale_spec(a, len_spec(a))
}

/// The `Vec3` whose components are the (in-range) integers of `a`.
pub open spec fn mk_vec3(a: V3) -> Vec3 {
    Vec3 { x: a.x as i64, y: a.y as i64, z: a.z as i64 }
}

/// Negating one side of a dot product negates the product: the raw sum
/// flips sign and truncating division carries the sign through.
pub proof fn lemma_dot_neg(a: V3, b: V3)
    ensures
        dot_spec(a, neg_spec(b)) == -dot_spec(a, b),
{
    assert(a.x * (-b.x) == -(a.x * b.x)) by (nonlinear_arith);
    assert(a.y * (-b.y) == -(a.y * b.y)) by (nonlinear_arith);
    assert(a.z * (-b.z) == -(a.z * b.z)) by (nonlinear_arith);
    crate::fixed::lemma_tdiv_neg(a.x * b.x + a.y * b.y + a.z * b.z, SCALE as int);
}

/// A squared length is never negative.
pub proof fn lemma_ls_nonneg(a: V3)
    ensures
        ls_spec(a) >= 0,
{
    assert(a.x * a.x >= 0) by (nonlinear_arith);
    assert(a.y * a.y >= 0) by (nonlinear_arith);
    assert(a.z * a.z >= 0) by (nonlinear_arith);
    let s = a.x * a.x + a.y * a.y + a.z * a.z;
    if s > 0 {
        vstd::arithmetic::div_mod::lemma_div_pos_is_pos(s, SCALE as int);
    }
}

/// A parametric magnitude bound for dot products: with `a` capped by `ma`
/// and `b` by `mb`, the dot product is capped by `3*ma*mb / SCALE`.
pub proof fn lemma_dot_mag(a: V3, b: V3, ma: int, mb: int)
    requires
        in_mag(a, ma),
        in_mag(b, mb),
        0 <= ma,
        0 <= mb,
    ensures
        -(ma * mb) <= a.x * b.x <= ma * mb,
        -(ma * mb) <= a.y * b.y <= ma * mb,
        -(ma * mb) <= a.z * b.z <= ma * mb,
        -((3 * ma * mb) / (SCALE as int)) <= dot_spec(a, b) <= (3 * ma * mb) / (
        SCALE as int),
{
    lemma_mul_mag(a.x, b.x, ma, mb);
    lemma_mul_mag(a.y, b.y, ma, mb);
    lemma_mul_mag(a.z, b.z, ma, mb);
    assert(3 * ma * mb == 3 * (ma * mb)) by (nonlinear_arith);
    lemma_tdiv_mag(a.x * b.x + a.y * b.y + a.z * b.z, SCALE as int, 3 * ma * mb);
}

/// A parametric magnitude bound for cross products: each component is a
/// difference of two rescaled products, so it is capped by twice the
/// rescaled product of the caps.
pub proof fn lemma_cross_mag(a: V3, b: V3, ma: int, mb: int)
    requires
        in_mag(a, ma),
        in_mag(b, mb),
        0 <= ma,
        0 <= mb,
    ensures
        in_mag(cross_spec(a, b), 2 * ((ma * mb) / (SCALE as int))),
        (ma * mb) / (SCALE as int) <= ma * mb,
{
    lemma_mul_mag(a.y, b.z, ma, mb);
    lemma_mul_mag(a.z, b.y, ma, mb);
    lemma_mul_mag(a.z, b.x, ma, mb);
    lemma_mul_mag(a.x, b.z, ma, mb);
    lemma_mul_mag(a.x, b.y, ma, mb);
    lemma_mul_mag(a.y, b.x, ma, mb);
    lemma_tdiv_mag(a.y * b.z, SCALE as int, ma * mb);
    lemma_tdiv_mag(a.z * b.y, SCALE as int, ma * mb);
    lemma_tdiv_mag(a.z * b.x, SCALE as int, ma * mb);
    lemma_tdiv_mag(a.x * b.z, SCALE as int, ma * mb);
    lemma_tdiv_mag(a.x * b.y, SCALE as int, ma * mb);
    lemma_tdiv_mag(a.y * b.x, SCALE as int, ma * mb);
}

/// Scaling a capped vector by a capped scalar stays capped by the
/// rescaled product of the caps.
pub proof fn lemma_scale_mag(a: V3, k: int, ma: int, mk: int)
    requires
        in_mag(a, ma),
        -mk <= k <= mk,
        0 <= ma,
        0 <= mk,
    ensures
        in_mag(scale_spec(a, k), (ma * mk) / (SCALE as int)),
        (ma * mk) / (SCALE as int) <= ma * mk,
{
    lemma_mul_mag(a.x, k, ma, mk);
    lemma_mul_mag(a.y, k, ma, mk);
    lemma_mul_mag(a.z, k, ma, mk);
    lemma_tdiv_mag(a.x * k, SCALE as int, ma * mk);
    lemma_tdiv_mag(a.y * k, SCALE as int, ma * mk);
    lemma_tdiv_mag(a.z * k, SCALE as int, ma * mk);
}

/// Checks that all three components lie in `[-m, m]`.
pub fn check_mag(v: &Vec3, m: i64) -> (r: bool)
    requires
        m >= 0,
    ensures
        r == in_mag(v@, m as int),
{
    -m <= v.x && v.x <= m && -m <= v.y && v.y <= m && -m <= v.z && v.z <= m
}

/// Under the magnitude cap, a dot product stays well inside `i64`.
pub proof fn lemma_dot_bound(a: V3, b: V3)
    requires
        in_mag(a, VMAX as int),
        in_mag(b, VMAX as int),
    ensures
        -0x1000_0000_0000_0000 <= a.x * b.x <= 0x1000_0000_0000_0000,
        -0x1000_0000_0000_0000 <= a.y * b.y <= 0x1000_0000_0000_0000,
        -0x1000_0000_0000_0000 <= a.z * b.z <= 0x1000_0000_0000_0000,
        -0x3000_0000_0000_0000 <= a.x * b.x + a.y * b.y + a.z * b.z <= 0x3000_0000_0000_0000,
        -0x3000_0000_0000_0000 <= dot_spec(a, b) <= 0x3000_0000_0000_0000,
{
    lemma_mul_mag(a.x, b.x, VMAX as int, VMAX as int);
    lemma_mul_mag(a.y, b.y, VMAX as int, VMAX as int);
    lemma_mul_mag(a.z, b.z, VMAX as int, VMAX as int);
    lemma_tdiv_mag(
        a.x * b.x + a.y * b.y + a.z * b.z,
        SCALE as int,
        0x3000_0000_0000_0000,
    );
}

impl Vec3 {
    /// Create a new vector.
    pub fn new(x: i64, y: i64, z: i64) -> (r: Vec3)
        ensures
            r@ == (V3 { x: x as int, y: y as int, z: z as int }),
    {
        Vec3 { x, y, z }
    }

    /// Create a new 3D vector.
    pub fn new3(x: i64, y: i64, z: i64) -> (r: Vec3)
        ensures
            r@ == (V3 { x: x as int, y: y as int, z: z as int }),
    {
        Vec3::new(x, y, z)
    }

    /// Returns the X direction.
    pub fn x(&self) -> (r: i64)
        ensures
            r as int == self@.x,
    {
        self.x
    }

    /// Returns the Y direction.
    pub fn y(&self) -> (r: i64)
        ensures
            r as int == self@.y,
    {
        self.y
    }

    /// Returns the Z direction.
    pub fn z(&self) -> (r: i64)
        ensures
            r as int == self@.z,
    {
        self.z
    }

    /// Componentwise sum.
    pub fn add(self, other: Vec3) -> (r: Vec3)
        requires
            i64::MIN <= self@.x + other@.x <= i64::MAX,
            i64::MIN <= self@.y + other@.y <= i64::MAX,
            i64::MIN <= self@.z + other@.z <= i64::MAX,
        ensures
            r@ == add_spec(self@, other@),
    {
        Vec3 { x: self.x + other.x, y: self.y + other.y, z: self.z + other.z }
    }

    /// Componentwise difference.
    pub fn sub(self, other: Vec3) -> (r: Vec3)
        requires
            i64::MIN <= self@.x - other@.x <= i64::MAX,
            i64::MIN <= self@.y - other@.y <= i64::MAX,
            i64::MIN <= self@.z - other@.z <= i64::MAX,
        ensures
            r@ == sub_spec(self@, other@),
    {
        Vec3 { x: self.x - other.x, y: self.y - other.y, z: self.z - other.z }
    }

    /// Componentwise negation.
    pub fn neg(self) -> (r: Vec3)
        requires
            self@.x != i64::MIN as int,
            self@.y != i64::MIN as int,
            self@.z != i64::MIN as int,
        ensures
            r@ == neg_spec(self@),
    {
        Vec3 { x: -self.x, y: -self.y, z: -self.z }
    }

    /// Scaling by a fixed-point scalar.
    pub fn mul(self, k: i64) -> (r: Vec3)
        requires
            i64::MIN <= fx_mul_spec(self@.x, k as int) <= i64::MAX,
            i64::MIN <= fx_mul_spec(self@.y, k as int) <= i64::MAX,
            i64::MIN <= fx_mul_spec(self@.z, k as int) <= i64::MAX,
        ensures
            r@ == scale_spec(self@, k as int),
    {
        Vec3 { x: fx_mul(self.x, k), y: fx_mul(self.y, k), z: fx_mul(self.z, k) }
    }

    /// Division by a nonzero fixed-point scalar.
    pub fn div(self, k: i64) -> (r: Vec3)
        requires
            k != 0,
            i64::MIN <= fx_div_spec(self@.x, k as int) <= i64::MAX,
            i64::MIN <= fx_div_spec(self@.y, k as int) <= i64::MAX,
            i64::MIN <= fx_div_spec(self@.z, k as int) <= i64::MAX,
        ensures
            r@ == div_scale_spec(self@, k as int),
    {
        Vec3 { x: fx_div(self.x, k), y: fx_div(self.y, k), z: fx_div(self.z, k) }
    }

    /// Computes the dot product between two vectors.
    pub fn dot(u: &Vec3, v: &Vec3) -> (r: i64)
        requires
            in_mag(u@, VMAX as int),
            in_mag(v@, VMAX as int),
        ensures
            r as int == dot_spec(u@, v@),
    {
        proof {
            lemma_dot_bound(u@, v@);
        }
        let p: i128 = (u.x as i128) * (v.x as i128) + (u.y as i128) * (v.y as i128) + (u.z
            as i128) * (v.z as i128);
        let q: i128 = match p.checked_div(SCALE as i128) {
            Some(q) => q,
            None => 0,
        };
        q as i64
    }

    /// Computes the cross product between two vectors.
    pub fn cross(u: &Vec3, v: &Vec3) -> (r: Vec3)
        requires
            in_mag(u@, VMAX as int),
            in_mag(v@, VMAX as int),
        ensures
            r@ == cross_spec(u@, v@),
    {
        proof {
            lemma_cross_fits(u@, v@);
        }
        Vec3 {
            x: fx_mul(u.y, v.z) - fx_mul(u.z, v.y),
            y: fx_mul(u.z, v.x) - fx_mul(u.x, v.z),
            z: fx_mul(u.x, v.y) - fx_mul(u.y, v.x),
        }
    }

    /// Returns the squared length.
    pub fn length_squared(&self) -> (r: i64)
        requires
            in_mag(self@, VMAX as int),
        ensures
            r as int == ls_spec(self@),
            r >= 0,
    {
        proof {
            lemma_ls_nonneg(self@);
        }
        Vec3::dot(self, self)
    }

    /// Returns the length.
    pub fn length(&self) -> (r: i64)
        requires
            in_mag(self@, VMAX as int),
        ensures
            r as int == len_spec(self@),
            r >= 0,
    {
        proof {
            lemma_ls_nonneg(self@);
        }
        let ls = self.length_squared();
        sqrt_fx(ls)
    }

    /// Returns the unit-length vector in this direction. The squared
    /// length must be at least one raw step; normalizing a degenerate
    /// vector is the caller's responsibility to rule out.
    pub fn normalized(&self) -> (r: Vec3)
        requires
            in_mag(self@, VMAX as int),
            ls_spec(self@) >= 1,
        ensures
            r@ == normalized_spec(self@),
            in_mag(r@, 2 * (SCALE as int)),
    {
        proof {
            lemma_unit_bound(self@);
        }
        let len = self.length();
        proof {
            lemma_mul_mag(self@.x, SCALE as int, VMAX as int, SCALE as int);
            lemma_mul_mag(self@.y, SCALE as int, VMAX as int, SCALE as int);
            lemma_mul_mag(self@.z, SCALE as int, VMAX as int, SCALE as int);
            lemma_tdiv_mag(self@.x * SCALE, len as int, 0x4_0000_0000_0000);
            lemma_tdiv_mag(self@.y * SCALE, len as int, 0x4_0000_0000_0000);
            lemma_tdiv_mag(self@.z * SCALE, len as int, 0x4_0000_0000_0000);
        }
        self.div(len)
    }
}

/// Cross product orthogonality, in its exact algebraic core: the raw
/// (unscaled) cross product of two vectors has a raw dot product of
/// exactly zero with each of them. The executable `cross` and `dot`
/// rescale every product with truncating division, so their composition
/// vanishes only up to truncation.
pub proof fn lemma_cross_orthogonal_raw(u: V3, v: V3)
    ensures
        (u.y * v.z - u.z * v.y) * u.x + (u.z * v.x - u.x * v.z) * u.y + (u.x * v.y - u.y
            * v.x) * u.z == 0,
        (u.y * v.z - u.z * v.y) * v.x + (u.z * v.x - u.x * v.z) * v.y + (u.x * v.y - u.y
            * v.x) * v.z == 0,
{
    assert((u.y * v.z - u.z * v.y) * u.x + (u.z * v.x - u.x * v.z) * u.y + (u.x * v.y
        - u.y * v.x) * u.z == 0) by (nonlinear_arith);
    assert((u.y * v.z - u.z * v.y) * v.x + (u.z * v.x - u.x * v.z) * v.y + (u.x * v.y
        - u.y * v.x) * v.z == 0) by (nonlinear_arith);
}

/// Cross product orthogonality for the executable operations: the
/// fixed-point dot product of `cross(u, v)` with either factor vanishes
/// up to the truncation that rescaling introduces — its magnitude is at
/// most six raw steps per unit of that factor's magnitude cap.
pub proof fn lemma_cross_orthogonality(u: V3, v: V3, mu: int, mv: int)
    requires
        in_mag(u, mu),
        in_mag(v, mv),
        0 <= mu,
        0 <= mv,
    ensures
        -((6 * mu) / (SCALE as int)) <= dot_spec(cross_spec(u, v), u) <= (6 * mu) / (
        SCALE as int),
        -((6 * mv) / (SCALE as int)) <= dot_spec(cross_spec(u, v), v) <= (6 * mv) / (
        SCALE as int),
{
    lemma_cross_orthogonal_raw(u, v);
    lemma_cross_dot_factor(u, v, u, mu);
    lemma_cross_dot_factor(u, v, v, mv);
}

/// The dot product of the fixed-point cross product with any vector
/// that is exactly orthogonal to the raw cross product is small: only
/// the six truncation remainders contribute.
proof fn lemma_cross_dot_factor(u: V3, v: V3, w: V3, mw: int)
    requires
        in_mag(w, mw),
        0 <= mw,
        (u.y * v.z - u.z * v.y) * w.x + (u.z * v.x - u.x * v.z) * w.y + (u.x * v.y - u.y
            * v.x) * w.z == 0,
    ensures
        -((6 * mw) / (SCALE as int)) <= dot_spec(cross_spec(u, v), w) <= (6 * mw) / (
        SCALE as int),
{
    let s = SCALE as int;
    let p1 = u.y * v.z;
    let q1 = u.z * v.y;
    let p2 = u.z * v.x;
    let q2 = u.x * v.z;
    let p3 = u.x * v.y;
    let q3 = u.y * v.x;
    crate::fixed::lemma_tdiv_rem(p1, s);
    crate::fixed::lemma_tdiv_rem(q1, s);
    crate::fixed::lemma_tdiv_rem(p2, s);
    crate::fixed::lemma_tdiv_rem(q2, s);
    crate::fixed::lemma_tdiv_rem(p3, s);
    crate::fixed::lemma_tdiv_rem(q3, s);
    let c = cross_spec(u, v);
    let e1 = (p1 - s * tdiv(p1, s)) - (q1 - s * tdiv(q1, s));
    let e2 = (p2 - s * tdiv(p2, s)) - (q2 - s * tdiv(q2, s));
    let e3 = (p3 - s * tdiv(p3, s)) - (q3 - s * tdiv(q3, s));
    assert(s * c.x == (p1 - q1) - e1) by (nonlinear_arith)
        requires
            c.x == tdiv(p1, s) - tdiv(q1, s),
            e1 == (p1 - s * tdiv(p1, s)) - (q1 - s * tdiv(q1, s)),
    ;
    assert(s * c.y == (p2 - q2) - e2) by (nonlinear_arith)
        requires
            c.y == tdiv(p2, s) - tdiv(q2, s),
            e2 == (p2 - s * tdiv(p2, s)) - (q2 - s * tdiv(q2, s)),
    ;
    assert(s * c.z == (p3 - q3) - e3) by (nonlinear_arith)
        requires
            c.z == tdiv(p3, s) - tdiv(q3, s),
            e3 == (p3 - s * tdiv(p3, s)) - (q3 - s * tdiv(q3, s)),
    ;
    let d = c.x * w.x + c.y * w.y + c.z * w.z;
    lemma_distribute3(s, c.x, c.y, c.z, w.x, w.y, w.z);
    assert((s * c.x) * w.x == ((p1 - q1) - e1) * w.x) by (nonlinear_arith)
        requires
            s * c.x == (p1 - q1) - e1,
    ;
    assert((s * c.y) * w.y == ((p2 - q2) - e2) * w.y) by (nonlinear_arith)
        requires
            s * c.y == (p2 - q2) - e2,
    ;
    assert((s * c.z) * w.z == ((p3 - q3) - e3) * w.z) by (nonlinear_arith)
        requires
            s * c.z == (p3 - q3) - e3,
    ;
    assert(((p1 - q1) - e1) * w.x + ((p2 - q2) - e2) * w.y + ((p3 - q3) - e3) * w.z == ((
    p1 - q1) * w.x + (p2 - q2) * w.y + (p3 - q3) * w.z) - (e1 * w.x + e2 * w.y + e3
        * w.z)) by (nonlinear_arith);
    lemma_mul_mag(e1, w.x, 2 * s, mw);
    lemma_mul_mag(e2, w.y, 2 * s, mw);
    lemma_mul_mag(e3, w.z, 2 * s, mw);
    assert(-(6 * mw) <= d <= 6 * mw) by (nonlinear_arith)
        requires
            s * d == -(e1 * w.x + e2 * w.y + e3 * w.z),
            -(3 * ((2 * s) * mw)) <= e1 * w.x + e2 * w.y + e3 * w.z <= 3 * ((2 * s) * mw),
            s == 65536,
            0 <= mw,
    ;
    lemma_tdiv_mag(d, s, 6 * mw);
}

/// Multiplication distributes over a three-term dot product.
proof fn lemma_distribute3(s: int, cx: int, cy: int, cz: int, wx: int, wy: int, wz: int)
    ensures
        s * (cx * wx + cy * wy + cz * wz) == (s * cx) * wx + (s * cy) * wy + (s * cz)
            * wz,
{
    vstd::arithmetic::mul::lemma_mul_is_distributive_add(s, cx * wx + cy * wy, cz * wz);
    vstd::arithmetic::mul::lemma_mul_is_distributive_add(s, cx * wx, cy * wy);
    vstd::arithmetic::mul::lemma_mul_is_associative(s, cx, wx);
    vstd::arithmetic::mul::lemma_mul_is_associative(s, cy, wy);
    vstd::arithmetic::mul::lemma_mul_is_associative(s, cz, wz);
}

/// A normalized vector is a unit vector up to truncation: each component
/// is capped by two units of length, and the length the division used
/// was at least a quarter unit.
pub proof fn lemma_unit_bound(v: V3)
    requires
        in_mag(v, VMAX as int),
        ls_spec(v) >= 1,
    ensures
        256 <= len_spec(v),
        in_mag(normalized_spec(v), 2 * (SCALE as int)),
{
    let q = v.x * v.x + v.y * v.y + v.z * v.z;
    let ls = ls_spec(v);
    assert(v.x * v.x >= 0) by (nonlinear_arith);
    assert(v.y * v.y >= 0) by (nonlinear_arith);
    assert(v.z * v.z >= 0) by (nonlinear_arith);
    assert(ls == q / (SCALE as int));
    vstd::arithmetic::div_mod::lemma_fundamental_div_mod(q, SCALE as int);
    vstd::arithmetic::div_mod::lemma_mod_division_less_than_divisor(q, SCALE as int);
    assert(SCALE as int <= q < (ls + 1) * SCALE);
    crate::fixed::lemma_isqrt_exists(ls * SCALE);
    let el = len_spec(v);
    assert(crate::fixed::is_isqrt(ls * SCALE, el));
    assert(SCALE as int <= ls * SCALE) by (nonlinear_arith)
        requires
            ls >= 1,
            SCALE == 65536,
    ;
    assert(el >= 256) by (nonlinear_arith)
        requires
            0 <= el,
            SCALE as int <= ls * SCALE < (el + 1) * (el + 1),
            SCALE == 65536,
    ;
    assert(q < (el + 1) * (el + 1) + SCALE) by (nonlinear_arith)
        requires
            q < (ls + 1) * SCALE,
            ls * SCALE < (el + 1) * (el + 1),
            SCALE == 65536,
    ;
    lemma_unit_component(v.x, q, el);
    lemma_unit_component(v.y, q, el);
    lemma_unit_component(v.z, q, el);
}

/// One component of a normalized vector is capped by two units.
proof fn lemma_unit_component(x: int, q: int, el: int)
    requires
        x * x <= q,
        q < (el + 1) * (el + 1) + SCALE,
        el >= 256,
    ensures
        -2 * (SCALE as int) <= crate::fixed::fx_div_spec(x, el) <= 2 * (SCALE as int),
{
    assert(-(el + 256) <= x <= el + 256) by (nonlinear_arith)
        requires
            x * x <= q,
            q < (el + 1) * (el + 1) + SCALE,
            el >= 256,
            SCALE == 65536,
    ;
    lemma_mul_mag(x, SCALE as int, el + 256, SCALE as int);
    lemma_tdiv_mag(x * SCALE, el, (el + 256) * SCALE);
    assert((el + 256) * SCALE <= el * (2 * SCALE)) by (nonlinear_arith)
        requires
            el >= 256,
            SCALE == 65536,
    ;
    vstd::arithmetic::div_mod::lemma_div_is_ordered(
        (el + 256) * SCALE,
        el * (2 * SCALE),
        el,
    );
    vstd::arithmetic::div_mod::lemma_div_multiples_vanish(2 * SCALE, el);
}

/// Normalizing keeps unit vectors at unit length, up to truncation: for
/// any vector at least one unit long, the normalized vector's squared
/// length and length lie within sixteen raw steps of one. Only the six
/// truncation remainders of the division by the length contribute.
pub proof fn lemma_normalized_unit_length(v: V3)
    requires
        in_mag(v, VMAX as int),
        ls_spec(v) >= SCALE,
    ensures
        SCALE - 8 <= ls_spec(normalized_spec(v)) <= SCALE + 16,
        SCALE - 8 <= len_spec(normalized_spec(v)) <= SCALE + 16,
{
    let s = SCALE as int;
    let q = v.x * v.x + v.y * v.y + v.z * v.z;
    let ls = ls_spec(v);
    assert(v.x * v.x >= 0) by (nonlinear_arith);
    assert(v.y * v.y >= 0) by (nonlinear_arith);
    assert(v.z * v.z >= 0) by (nonlinear_arith);
    assert(ls == q / s);
    vstd::arithmetic::div_mod::lemma_fundamental_div_mod(q, s);
    vstd::arithmetic::div_mod::lemma_mod_division_less_than_divisor(q, s);
    crate::fixed::lemma_isqrt_exists(ls * s);
    let el = len_spec(v);
    assert(crate::fixed::is_isqrt(ls * s, el));
    assert(el >= s) by (nonlinear_arith)
        requires
            0 <= el,
            ls * s < (el + 1) * (el + 1),
            ls >= s,
            s == 65536,
    ;
    assert(q < (el + 1) * (el + 1) + s) by (nonlinear_arith)
        requires
            q < (ls + 1) * s,
            ls * s < (el + 1) * (el + 1),
            s == 65536,
    ;
    let un = normalized_spec(v);
    assert(un.x == tdiv(v.x * s, el) && un.y == tdiv(v.y * s, el) && un.z == tdiv(
        v.z * s,
        el,
    ));
    let lo = q * (s * s) - 6 * (((el + 256) * s) * el);
    let hi = q * (s * s) + 6 * (((el + 256) * s) * el) + 3 * (el * el);
    lemma_unit_sq_component(v.x, q, el, s);
    lemma_unit_sq_component(v.y, q, el, s);
    lemma_unit_sq_component(v.z, q, el, s);
    let up = (el * un.x) * (el * un.x) + (el * un.y) * (el * un.y) + (el * un.z) * (el
        * un.z);
    assert((v.x * v.x) * (s * s) + (v.y * v.y) * (s * s) + (v.z * v.z) * (s * s) == q * (
    s * s)) by (nonlinear_arith)
        requires
            q == v.x * v.x + v.y * v.y + v.z * v.z,
    ;
    let usq = un.x * un.x + un.y * un.y + un.z * un.z;
    assert((el * un.x) * (el * un.x) == (el * el) * (un.x * un.x)) by (nonlinear_arith);
    assert((el * un.y) * (el * un.y) == (el * el) * (un.y * un.y)) by (nonlinear_arith);
    assert((el * un.z) * (el * un.z) == (el * el) * (un.z * un.z)) by (nonlinear_arith);
    assert((el * el) * (un.x * un.x) + (el * el) * (un.y * un.y) + (el * el) * (un.z
        * un.z) == (el * el) * usq) by (nonlinear_arith)
        requires
            usq == un.x * un.x + un.y * un.y + un.z * un.z,
    ;
    assert(lo <= (el * el) * usq <= hi);
    assert(usq >= s * s - 7 * s) by (nonlinear_arith)
        requires
            (el * el) * usq >= q * (s * s) - 6 * (((el + 256) * s) * el),
            q >= el * el,
            el >= 65536,
            s == 65536,
    ;
    assert(usq <= s * s + 16 * s) by (nonlinear_arith)
        requires
            (el * el) * usq <= q * (s * s) + 6 * (((el + 256) * s) * el) + 3 * (el * el),
            q < (el + 1) * (el + 1) + s,
            el >= 65536,
            s == 65536,
    ;
    assert(usq >= 0) by (nonlinear_arith)
        requires
            usq == un.x * un.x + un.y * un.y + un.z * un.z,
    ;
    let lsu = ls_spec(un);
    assert(lsu == usq / s);
    vstd::arithmetic::div_mod::lemma_div_is_ordered(s * s - 7 * s, usq, s);
    vstd::arithmetic::div_mod::lemma_div_is_ordered(usq, s * s + 16 * s, s);
    vstd::arithmetic::div_mod::lemma_div_multiples_vanish(s - 7, s);
    vstd::arithmetic::div_mod::lemma_div_multiples_vanish(s + 16, s);
    assert(s * (s - 7) == s * s - 7 * s) by (nonlinear_arith);
    assert(s * (s + 16) == s * s + 16 * s) by (nonlinear_arith);
    assert(s - 8 <= lsu <= s + 16);
    crate::fixed::lemma_isqrt_exists(lsu * s);
    let lu = len_spec(un);
    assert(crate::fixed::is_isqrt(lsu * s, lu));
    assert(s - 8 <= lu <= s + 16) by (nonlinear_arith)
        requires
            0 <= lu,
            lu * lu <= lsu * s < (lu + 1) * (lu + 1),
            s - 8 <= lsu <= s + 16,
            s == 65536,
    ;
}

/// One component's contribution to the squared length of a normalized
/// vector: the squared rescaled quotient deviates from the exact square
/// by at most the cross and remainder terms.
proof fn lemma_unit_sq_component(x: int, q: int, el: int, s: int)
    requires
        x * x <= q,
        q < (el + 1) * (el + 1) + s,
        el >= 256,
        s == SCALE as int,
        SCALE as int == 65536,
    ensures
        ({
            let u = tdiv(x * s, el);
            (x * x) * (s * s) - 2 * (((el + 256) * s) * el) <= (el * u) * (el * u) <= (x
                * x) * (s * s) + 2 * (((el + 256) * s) * el) + el * el
        }),
{
    assert(-(el + 256) <= x <= el + 256) by (nonlinear_arith)
        requires
            x * x <= q,
            q < (el + 1) * (el + 1) + s,
            el >= 256,
            s == 65536,
    ;
    let a = x * s;
    let u = tdiv(a, el);
    crate::fixed::lemma_tdiv_rem(a, el);
    let r = a - el * u;
    assert((el * u) * (el * u) == (a - r) * (a - r)) by (nonlinear_arith)
        requires
            el * u == a - r,
    ;
    assert((a - r) * (a - r) == a * a - 2 * (a * r) + r * r) by (nonlinear_arith);
    assert(a * a == (x * x) * (s * s)) by (nonlinear_arith)
        requires
            a == x * s,
    ;
    lemma_mul_mag(x, s, el + 256, s);
    lemma_mul_mag(a, r, (el + 256) * s, el);
    lemma_mul_mag(r, r, el, el);
    assert(r * r >= 0) by (nonlinear_arith);
}

/// Each component of a cross product of capped vectors fits in `i64`.
proof fn lemma_cross_fits(a: V3, b: V3)
    requires
        in_mag(a, VMAX as int),
        in_mag(b, VMAX as int),
    ensures
        -0x2000_0000_0000_0000 <= fx_mul_spec(a.y, b.z) <= 0x2000_0000_0000_0000,
        -0x2000_0000_0000_0000 <= fx_mul_spec(a.z, b.y) <= 0x2000_0000_0000_0000,
        -0x2000_0000_0000_0000 <= fx_mul_spec(a.z, b.x) <= 0x2000_0000_0000_0000,
        -0x2000_0000_0000_0000 <= fx_mul_spec(a.x, b.z) <= 0x2000_0000_0000_0000,
        -0x2000_0000_0000_0000 <= fx_mul_spec(a.x, b.y) <= 0x2000_0000_0000_0000,
        -0x2000_0000_0000_0000 <= fx_mul_spec(a.y, b.x) <= 0x2000_0000_0000_0000,
{
    lemma_fx_mul_capped(a.y, b.z);
    lemma_fx_mul_capped(a.z, b.y);
    lemma_fx_mul_capped(a.z, b.x);
    lemma_fx_mul_capped(a.x, b.z);
    lemma_fx_mul_capped(a.x, b.y);
    lemma_fx_mul_capped(a.y, b.x);
}

/// One capped fixed-point product fits in `i64`.
proof fn lemma_fx_mul_capped(x: int, y: int)
    requires
        -(VMAX as int) <= x <= VMAX as int,
        -(VMAX as int) <= y <= VMAX as int,
    ensures
        -0x2000_0000_0000_0000 <= fx_mul_spec(x, y) <= 0x2000_0000_0000_0000,
{
    lemma_mul_mag(x, y, VMAX as int, VMAX as int);
    lemma_tdiv_mag(x * y, SCALE as int, 0x1000_0000_0000_0000);
}

} // verus!
