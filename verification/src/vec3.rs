//! Three-component fixed-point vectors, used as points, directions and
//! colors alike.
//!
//! Every executable operation has a spec-level mirror built from the
//! exact fixed-point operations of [`crate::fixed`], so contracts can
//! chase a computation component by component.

use vstd::prelude::*;
use crate::fixed::{fdiv, fmul, fp_add, fp_div, fp_min, fp_mul, fp_neg, fp_sqrt, fp_sub, fsqrt,
    iabs, lemma_sqrt_floor_bounds, sat, sqrt_floor, ONE};
use crate::rng::{mix_state, range_draw, unit_draw, SeededRng};

verus! {

/// A vector of three fixed-point scalars.
#[derive(Clone, Copy, Debug, PartialEq, Eq, Structural)]
pub struct Vec3 {
    pub x: i64,
    pub y: i64,
    pub z: i64,
}

/// A location in space.
pub type Point3 = Vec3;

/// An RGB color; one unit is full brightness of a channel.
pub type Color = Vec3;

/// Clamp an integer into the scalar range and store it.
pub open spec fn sat64(x: int) -> i64 {
    sat(x) as i64
}

/// Componentwise sum.
pub open spec fn vadd(a: Vec3, b: Vec3) -> Vec3 {
    Vec3 { x: sat64(a.x + b.x), y: sat64(a.y + b.y), z: sat64(a.z + b.z) }
}

/// Componentwise difference.
pub open spec fn vsub(a: Vec3, b: Vec3) -> Vec3 {
    Vec3 { x: sat64(a.x - b.x), y: sat64(a.y - b.y), z: sat64(a.z - b.z) }
}

/// Componentwise negation.
pub open spec fn vneg(a: Vec3) -> Vec3 {
    Vec3 { x: sat64(-a.x), y: sat64(-a.y), z: sat64(-a.z) }
}

/// Componentwise product.
pub open spec fn vmul(a: Vec3, b: Vec3) -> Vec3 {
    Vec3 {
        x: sat64(fmul(a.x as int, b.x as int)),
        y: sat64(fmul(a.y as int, b.y as int)),
        z: sat64(fmul(a.z as int, b.z as int)),
    }
}

/// Product with a scalar.
pub open spec fn vscale(a: Vec3, s: int) -> Vec3 {
    Vec3 {
        x: sat64(fmul(a.x as int, s)),
        y: sat64(fmul(a.y as int, s)),
        z: sat64(fmul(a.z as int, s)),
    }
}

/// Quotient by a scalar.
pub open spec fn vdivs(a: Vec3, s: int) -> Vec3
    recommends
        s != 0,
{
    Vec3 {
        x: sat64(fdiv(a.x as int, s)),
        y: sat64(fdiv(a.y as int, s)),
        z: sat64(fdiv(a.z as int, s)),
    }
}

/// Dot product, accumulated left to right as the executable code does.
pub open spec fn vdot(a: Vec3, b: Vec3) -> int {
    sat(sat(fmul(a.x as int, b.x as int) + fmul(a.y as int, b.y as int)) + fmul(
        a.z as int,
        b.z as int,
    ))
}

/// Cross product.
pub open spec fn vcross(a: Vec3, b: Vec3) -> Vec3 {
    Vec3 {
        x: sat64(sat(fmul(a.y as int, b.z as int) - fmul(a.z as int, b.y as int))),
        y: sat64(sat(fmul(a.z as int, b.x as int) - fmul(a.x as int, b.z as int))),
        z: sat64(sat(fmul(a.x as int, b.y as int) - fmul(a.y as int, b.x as int))),
    }
}

/// Direction scaled to unit length (up to fixed-point rounding).
pub open spec fn vnormalize(a: Vec3) -> Vec3
    recommends
        vdot(a, a) != 0,
{
    vdivs(a, fsqrt(vdot(a, a)))
}

/// Mirror reflection about a surface normal.
pub open spec fn vreflect(v: Vec3, n: Vec3) -> Vec3 {
    vsub(v, vscale(n, fmul(2 * ONE, vdot(v, n))))
}

/// Snell refraction of a unit direction about a normal, with the ratio
/// of refractive indices; the radicand is clamped at zero where rounding
/// would drive it negative.
pub open spec fn vrefract(uv: Vec3, n: Vec3, ratio: int) -> Vec3 {
    let c0 = sat(-vdot(uv, n));
    let cos_theta = if c0 <= ONE as int {
        c0
    } else {
        ONE as int
    };
    let r_out_perp = vscale(vadd(uv, vscale(n, cos_theta)), ratio);
    let k = sat(ONE - vdot(r_out_perp, r_out_perp));
    let k_clamped = if k < 0 {
        0
    } else {
        k
    };
    let r_out_parallel = vscale(n, sat(-fsqrt(k_clamped)));
    vadd(r_out_perp, r_out_parallel)
}

/// The zero vector.
pub open spec fn vzero() -> Vec3 {
    Vec3 { x: 0, y: 0, z: 0 }
}

/// The fixed in-ball vector the rejection samplers fall back to when
/// the retry cap is reached.
pub open spec fn ball_fallback() -> Vec3 {
    Vec3 { x: 500_000, y: 0, z: 0 }
}

/// The triple of unit draws `vec3_random` makes, with the state it
/// leaves behind.
pub open spec fn vec3_random_spec(s: u64) -> (Vec3, u64) {
    let x = unit_draw(s);
    let s1 = mix_state(s);
    let y = unit_draw(s1);
    let s2 = mix_state(s1);
    let z = unit_draw(s2);
    (Vec3 { x, y, z }, mix_state(s2))
}

/// The triple of range draws `vec3_random_range` makes, with the state
/// it leaves behind.
pub open spec fn vec3_random_range_spec(s: u64, lo: i64, hi: i64) -> (Vec3, u64)
    recommends
        lo < hi,
{
    let x = range_draw(s, lo, hi);
    let s1 = mix_state(s);
    let y = range_draw(s1, lo, hi);
    let s2 = mix_state(s1);
    let z = range_draw(s2, lo, hi);
    (Vec3 { x, y, z }, mix_state(s2))
}

/// The rejection scan of the unit-ball sampler: draw a box vector,
/// accept it strictly inside the ball, retry while tries remain, and
/// fall back to the fixed in-ball vector past the cap.
pub open spec fn ball_reject_spec(s: u64, tries: int) -> (Vec3, u64)
    decreases tries,
{
    if tries <= 0 {
        (ball_fallback(), s)
    } else {
        let d = vec3_random_range_spec(s, -1_000_000i64, 1_000_000i64);
        if 0 < vdot(d.0, d.0) < ONE as int {
            d
        } else {
            ball_reject_spec(d.1, tries - 1)
        }
    }
}

/// The exact draw and final state of `random_in_unit_sphere`.
pub open spec fn random_in_unit_sphere_spec(s: u64) -> (Vec3, u64) {
    ball_reject_spec(s, 64)
}

/// The rejection scan of the unit-disk sampler.
pub open spec fn disk_reject_spec(s: u64, tries: int) -> (Vec3, u64)
    decreases tries,
{
    if tries <= 0 {
        (ball_fallback(), s)
    } else {
        let x = range_draw(s, -1_000_000i64, 1_000_000i64);
        let s1 = mix_state(s);
        let y = range_draw(s1, -1_000_000i64, 1_000_000i64);
        let s2 = mix_state(s1);
        let p = Vec3 { x, y, z: 0 };
        if 0 < vdot(p, p) < ONE as int {
            (p, s2)
        } else {
            disk_reject_spec(s2, tries - 1)
        }
    }
}

/// The exact draw and final state of `random_in_unit_disk`.
pub open spec fn random_in_unit_disk_spec(s: u64) -> (Vec3, u64) {
    disk_reject_spec(s, 64)
}

/// The exact draw and final state of `random_unit_vector`.
pub open spec fn random_unit_vector_spec(s: u64) -> (Vec3, u64) {
    let d = random_in_unit_sphere_spec(s);
    (vnormalize(d.0), d.1)
}

/// The exact draw and final state of `random_in_hemisphere`.
pub open spec fn random_in_hemisphere_spec(s: u64, normal: Vec3) -> (Vec3, u64) {
    let d = random_in_unit_sphere_spec(s);
    if vdot(d.0, normal) > 0 {
        d
    } else {
        (vneg(d.0), d.1)
    }
}

/// Negating one factor negates a fixed-point product.
pub proof fn lemma_fmul_neg_left(a: int, b: int)
    ensures
        fmul(-a, b) == -fmul(a, b),
{
    assert((-a) * b == -(a * b)) by (nonlinear_arith);
    assert(iabs(-(a * b)) == iabs(a * b));
}

/// Fixed-point multiplication is symmetric.
pub proof fn lemma_fmul_sym(a: int, b: int)
    ensures
        fmul(a, b) == fmul(b, a),
{
    assert(a * b == b * a) by (nonlinear_arith);
}

/// The dot product is symmetric.
pub proof fn lemma_vdot_sym(a: Vec3, b: Vec3)
    ensures
        vdot(a, b) == vdot(b, a),
{
    lemma_fmul_sym(a.x as int, b.x as int);
    lemma_fmul_sym(a.y as int, b.y as int);
    lemma_fmul_sym(a.z as int, b.z as int);
}

/// Negating the left vector negates the dot product, away from the one
/// scalar whose negation saturates.
pub proof fn lemma_vdot_neg_left(a: Vec3, b: Vec3)
    requires
        a.x != i64::MIN,
        a.y != i64::MIN,
        a.z != i64::MIN,
    ensures
        vdot(vneg(a), b) == -vdot(a, b),
{
    lemma_fmul_neg_left(a.x as int, b.x as int);
    lemma_fmul_neg_left(a.y as int, b.y as int);
    lemma_fmul_neg_left(a.z as int, b.z as int);
}

/// Negating a vector keeps its squared length, away from saturation.
pub proof fn lemma_vdot_neg_both(a: Vec3)
    requires
        a.x != i64::MIN,
        a.y != i64::MIN,
        a.z != i64::MIN,
    ensures
        vdot(vneg(a), vneg(a)) == vdot(a, a),
{
    lemma_vdot_neg_left(a, vneg(a));
    lemma_vdot_sym(a, vneg(a));
    lemma_vdot_neg_left(a, a);
}

/// Attenuating by black gives black, whatever the other color is.
pub proof fn lemma_vmul_zero_left(v: Vec3)
    ensures
        vmul(vzero(), v) == vzero(),
{
    assert(0 * v.x == 0) by (nonlinear_arith);
    assert(0 * v.y == 0) by (nonlinear_arith);
    assert(0 * v.z == 0) by (nonlinear_arith);
}

/// The square of a scalar is never negative.
pub proof fn lemma_fmul_self_nonneg(a: int)
    ensures
        fmul(a, a) >= 0,
{
    assert(a * a >= 0) by (nonlinear_arith);
    assert(iabs(a * a) == a * a);
}

/// A vector's dot product with itself is never negative.
pub proof fn lemma_vdot_self_nonneg(v: Vec3)
    ensures
        vdot(v, v) >= 0,
{
    lemma_fmul_self_nonneg(v.x as int);
    lemma_fmul_self_nonneg(v.y as int);
    lemma_fmul_self_nonneg(v.z as int);
}

/// Attenuating a nonnegative color by one whose channels lie in
/// `[0, 1]` keeps every channel between zero and its old value.
pub proof fn lemma_vmul_unit_contract(a: Vec3, b: Vec3)
    requires
        0 <= a.x <= ONE,
        0 <= a.y <= ONE,
        0 <= a.z <= ONE,
        0 <= b.x,
        0 <= b.y,
        0 <= b.z,
    ensures
        0 <= vmul(a, b).x <= b.x,
        0 <= vmul(a, b).y <= b.y,
        0 <= vmul(a, b).z <= b.z,
{
    crate::fixed::lemma_fmul_unit_contract(a.x as int, b.x as int);
    crate::fixed::lemma_fmul_unit_contract(a.y as int, b.y as int);
    crate::fixed::lemma_fmul_unit_contract(a.z as int, b.z as int);
}

/// Normalizing cannot blow a reasonably sized component up beyond one
/// by more than the rounding of the stored length: away from the
/// saturated fringe of the grid, a normalized component stays within
/// half a unit of the unit interval.
pub proof fn lemma_unit_component_bound(v: Vec3)
    requires
        vdot(v, v) != 0,
        iabs(v.y as int) <= 3_000_000_000_000,
    ensures
        iabs(vnormalize(v).y as int) <= ONE + 502_000,
{
    let y = v.y as int;
    let ls = vdot(v, v);
    lemma_vdot_self_nonneg(v);
    let mx = fmul(v.x as int, v.x as int);
    let my = fmul(y, y);
    let mz = fmul(v.z as int, v.z as int);
    lemma_fmul_self_nonneg(v.x as int);
    lemma_fmul_self_nonneg(y);
    lemma_fmul_self_nonneg(v.z as int);
    assert(my <= ls);

    // The squared component does not saturate, so it sits one floor
    // step under its exact square.
    assert(0 <= y * y <= 9_000_000_000_000_000_000_000_000) by (nonlinear_arith)
        requires
            iabs(y) <= 3_000_000_000_000,
            iabs(y) == if y < 0 {
                -y
            } else {
                y
            },
    ;
    vstd::arithmetic::div_mod::lemma_div_pos_is_pos(y * y, ONE as int);
    vstd::arithmetic::div_mod::lemma_div_is_ordered(
        y * y,
        9_000_000_000_000_000_000_000_000,
        ONE as int,
    );
    assert(my == (y * y) / (ONE as int));
    vstd::arithmetic::div_mod::lemma_fundamental_div_mod(y * y, ONE as int);
    vstd::arithmetic::div_mod::lemma_mod_bound(y * y, ONE as int);
    assert(y * y <= my * (ONE as int) + (ONE as int) - 1) by (nonlinear_arith)
        requires
            y * y == (ONE as int) * my + (y * y) % (ONE as int),
            0 <= (y * y) % (ONE as int) < ONE as int,
    ;

    // The stored length is the floored square root of the squared
    // length, and at least one whole grid step.
    let n = ls * (ONE as int);
    let len = sqrt_floor(n);
    lemma_sqrt_floor_bounds(n);
    assert(n >= 1_000_000);
    if len < 1000 {
        assert((len + 1) * (len + 1) <= 1_000_000) by (nonlinear_arith)
            requires
                0 <= len < 1000,
        ;
        assert(false);
    }

    // So the component itself is at most 502 steps past the length.
    assert(y * y <= (len + 502) * (len + 502)) by (nonlinear_arith)
        requires
            y * y <= my * 1_000_000 + 999_999,
            my * 1_000_000 <= n,
            n < (len + 1) * (len + 1),
            len >= 1000,
    ;
    let iab = iabs(y);
    assert(iab * iab == y * y) by (nonlinear_arith)
        requires
            iab == if y < 0 {
                -y
            } else {
                y
            },
    ;
    assert(iab <= len + 502) by (nonlinear_arith)
        requires
            iab >= 0,
            len >= 0,
            iab * iab <= (len + 502) * (len + 502),
    ;

    // Divide through by the length: the quotient overshoots one by at
    // most 502 parts in a thousand.
    let p = y * (ONE as int);
    assert(iabs(p) == iab * (ONE as int)) by (nonlinear_arith)
        requires
            iab == if y < 0 {
                -y
            } else {
                y
            },
            iabs(p) == if p < 0 {
                -p
            } else {
                p
            },
            p == y * 1_000_000,
    ;
    assert(iab * (ONE as int) <= (len + 502) * (ONE as int)) by (nonlinear_arith)
        requires
            iab <= len + 502,
    ;
    vstd::arithmetic::div_mod::lemma_div_pos_is_pos(iab * (ONE as int), len);
    vstd::arithmetic::div_mod::lemma_div_is_ordered(
        iab * (ONE as int),
        (len + 502) * (ONE as int),
        len,
    );
    let q2 = (502 * (ONE as int)) / len;
    vstd::arithmetic::div_mod::lemma_fundamental_div_mod(502 * (ONE as int), len);
    vstd::arithmetic::div_mod::lemma_mod_bound(502 * (ONE as int), len);
    assert((len + 502) * (ONE as int) == len * ((ONE as int) + q2) + (502 * (ONE as int)) % len)
        by (nonlinear_arith)
        requires
            502 * (ONE as int) == len * q2 + (502 * (ONE as int)) % len,
    ;
    vstd::arithmetic::div_mod::lemma_div_multiples_vanish_fancy(
        (ONE as int) + q2,
        (502 * (ONE as int)) % len,
        len,
    );
    vstd::arithmetic::div_mod::lemma_div_is_ordered_by_denominator(502 * (ONE as int), 1000, len);
    assert(q2 <= 502_000);
    assert((iab * (ONE as int)) / len <= (ONE as int) + 502_000);
}
pub proof fn lemma_fsqrt_pos(a: int)
    requires
        a >= 1,
    ensures
        fsqrt(a) >= 1,
{
    let n = a * (ONE as int);
    assert(a * (ONE as int) >= ONE as int) by (nonlinear_arith)
        requires
            a >= 1,
    ;
    lemma_sqrt_floor_bounds(n);
    let r = sqrt_floor(n);
    if r < 1 {
        assert((r + 1) * (r + 1) <= 1) by (nonlinear_arith)
            requires
                0 <= r < 1,
        ;
        assert(false);
    }
}

impl Vec3 {
    /// Pack three scalars.
    pub fn new(x: i64, y: i64, z: i64) -> (r: Vec3)
        ensures
            r == (Vec3 { x, y, z }),
    {
        Vec3 { x, y, z }
    }

    /// Componentwise sum.
    pub fn add(self, rhs: Vec3) -> (r: Vec3)
        ensures
            r == vadd(self, rhs),
    {
        Vec3 { x: fp_add(self.x, rhs.x), y: fp_add(self.y, rhs.y), z: fp_add(self.z, rhs.z) }
    }

    /// Componentwise difference.
    pub fn sub(self, rhs: Vec3) -> (r: Vec3)
        ensures
            r == vsub(self, rhs),
    {
        Vec3 { x: fp_sub(self.x, rhs.x), y: fp_sub(self.y, rhs.y), z: fp_sub(self.z, rhs.z) }
    }

    /// Componentwise negation.
    pub fn neg(self) -> (r: Vec3)
        ensures
            r == vneg(self),
    {
        Vec3 { x: fp_neg(self.x), y: fp_neg(self.y), z: fp_neg(self.z) }
    }

    /// Componentwise product (used for color attenuation).
    pub fn mul(self, rhs: Vec3) -> (r: Vec3)
        ensures
            r == vmul(self, rhs),
    {
        Vec3 { x: fp_mul(self.x, rhs.x), y: fp_mul(self.y, rhs.y), z: fp_mul(self.z, rhs.z) }
    }

    /// Product with a scalar.
    pub fn scale(self, s: i64) -> (r: Vec3)
        ensures
            r == vscale(self, s as int),
    {
        Vec3 { x: fp_mul(self.x, s), y: fp_mul(self.y, s), z: fp_mul(self.z, s) }
    }

    /// Quotient by a scalar.
    pub fn div_s(self, s: i64) -> (r: Vec3)
        requires
            s != 0,
        ensures
            r == vdivs(self, s as int),
    {
        Vec3 { x: fp_div(self.x, s), y: fp_div(self.y, s), z: fp_div(self.z, s) }
    }

    /// Dot product.
    pub fn dot(self, rhs: Vec3) -> (r: i64)
        ensures
            r == vdot(self, rhs),
    {
        fp_add(fp_add(fp_mul(self.x, rhs.x), fp_mul(self.y, rhs.y)), fp_mul(self.z, rhs.z))
    }

    /// Squared length.
    pub fn length_squared(self) -> (r: i64)
        ensures
            r == vdot(self, self),
            r >= 0,
    {
        proof {
            lemma_vdot_self_nonneg(self);
        }
        self.dot(self)
    }

    /// Length, rounded down to the fixed-point grid.
    pub fn length(self) -> (r: i64)
        ensures
            r == fsqrt(vdot(self, self)),
            r >= 0,
    {
        fp_sqrt(self.length_squared())
    }

    /// Cross product.
    pub fn cross(self, rhs: Vec3) -> (r: Vec3)
        ensures
            r == vcross(self, rhs),
    {
        Vec3 {
            x: fp_sub(fp_mul(self.y, rhs.z), fp_mul(self.z, rhs.y)),
            y: fp_sub(fp_mul(self.z, rhs.x), fp_mul(self.x, rhs.z)),
            z: fp_sub(fp_mul(self.x, rhs.y), fp_mul(self.y, rhs.x)),
        }
    }

    /// Direction scaled to unit length. The caller must rule the zero
    /// vector out; at this resolution that is exactly a zero dot product.
    pub fn normalize(self) -> (r: Vec3)
        requires
            vdot(self, self) != 0,
        ensures
            r == vnormalize(self),
    {
        let ls: i64 = self.length_squared();
        proof {
            lemma_fsqrt_pos(ls as int);
        }
        let len: i64 = fp_sqrt(ls);
        self.div_s(len)
    }

    /// Whether every component is below the degeneracy threshold. The
    /// threshold of the scattering guard lies under one fixed-point
    /// step, so only the zero vector itself is near zero here.
    pub fn near_zero(&self) -> (r: bool)
        ensures
            r == (*self == vzero()),
    {
        self.x == 0 && self.y == 0 && self.z == 0
    }

    /// Mirror reflection about a surface normal.
    pub fn reflect(self, normal: Vec3) -> (r: Vec3)
        ensures
            r == vreflect(self, normal),
    {
        let b: i64 = fp_mul(2 * ONE, self.dot(normal));
        self.sub(normal.scale(b))
    }

    /// Snell refraction about a normal with the given ratio of
    /// refractive indices.
    pub fn refract(self, n: Vec3, etai_over_etat: i64) -> (r: Vec3)
        ensures
            r == vrefract(self, n, etai_over_etat as int),
    {
        let cos_theta: i64 = fp_min(fp_neg(self.dot(n)), ONE);
        let r_out_perp: Vec3 = self.add(n.scale(cos_theta)).scale(etai_over_etat);
        let k: i64 = fp_sub(ONE, r_out_perp.dot(r_out_perp));
        let k_clamped: i64 = if k < 0 {
            0
        } else {
            k
        };
        let r_out_parallel: Vec3 = n.scale(fp_neg(fp_sqrt(k_clamped)));
        r_out_perp.add(r_out_parallel)
    }

    /// A vector with each component drawn uniformly from `[0, 1)`.
    pub fn vec3_random(rng: &mut SeededRng) -> (r: Vec3)
        ensures
            (r, final(rng).state) == vec3_random_spec(old(rng).state),
            0 <= r.x < ONE,
            0 <= r.y < ONE,
            0 <= r.z < ONE,
    {
        let x: i64 = rng.next_unit();
        let y: i64 = rng.next_unit();
        let z: i64 = rng.next_unit();
        Vec3 { x, y, z }
    }

    /// A vector with each component drawn uniformly from `[lo, hi)`.
    pub fn vec3_random_range(rng: &mut SeededRng, lo: i64, hi: i64) -> (r: Vec3)
        requires
            lo < hi,
        ensures
            (r, final(rng).state) == vec3_random_range_spec(old(rng).state, lo, hi),
            lo <= r.x < hi,
            lo <= r.y < hi,
            lo <= r.z < hi,
    {
        let x: i64 = rng.next_in_range(lo, hi);
        let y: i64 = rng.next_in_range(lo, hi);
        let z: i64 = rng.next_in_range(lo, hi);
        Vec3 { x, y, z }
    }

    /// Rejection-sample a nonzero vector strictly inside the unit ball.
    /// Each attempt succeeds with probability about one half, so the
    /// retry cap is unreachable in all but a vanishing fraction of
    /// streams; past it the draw falls back to a fixed in-ball vector.
    pub fn random_in_unit_sphere(rng: &mut SeededRng) -> (r: Vec3)
        ensures
            (r, final(rng).state) == random_in_unit_sphere_spec(old(rng).state),
            0 < vdot(r, r) < ONE,
            -ONE <= r.x < ONE,
            -ONE <= r.y < ONE,
            -ONE <= r.z < ONE,
    {
        let mut i: u64 = 0;
        while i < 64
            invariant
                i <= 64,
                ball_reject_spec(old(rng).state, 64) == ball_reject_spec(rng.state, 64 - i),
            decreases 64 - i,
        {
            let ghost s_pre: u64 = rng.state;
            let p: Vec3 = Vec3::vec3_random_range(rng, -ONE, ONE);
            let ls: i64 = p.length_squared();
            proof {
                assert((p, rng.state) == vec3_random_range_spec(s_pre, -1_000_000i64,
                1_000_000i64));
                assert(ball_reject_spec(s_pre, 64 - i) == (if 0 < vdot(p, p) < ONE as int {
                    (p, rng.state)
                } else {
                    ball_reject_spec(rng.state, 64 - i - 1)
                }));
            }
            if 0 < ls && ls < ONE {
                return p;
            }
            i = i + 1;
        }
        let fallback: Vec3 = Vec3 { x: 500_000, y: 0, z: 0 };
        proof {
            assert(500_000int * 500_000int == 250_000_000_000int) by (nonlinear_arith);
            assert(250_000_000_000int / 1_000_000int == 250_000int) by (nonlinear_arith);
            assert(fmul(500_000, 500_000) == 250_000);
            assert(fmul(0, 0) == 0);
            assert(vdot(fallback, fallback) == 250_000);
        }
        fallback
    }

    /// A vector inside the unit ball on the same side of the surface as
    /// the given normal (or tangent to it).
    pub fn random_in_hemisphere(rng: &mut SeededRng, normal: Vec3) -> (r: Vec3)
        ensures
            (r, final(rng).state) == random_in_hemisphere_spec(old(rng).state, normal),
            0 < vdot(r, r) < ONE,
            vdot(r, normal) >= 0,
    {
        let in_unit_sphere: Vec3 = Self::random_in_unit_sphere(rng);
        if in_unit_sphere.dot(normal) > 0 {
            in_unit_sphere
        } else {
            proof {
                lemma_vdot_neg_left(in_unit_sphere, normal);
                lemma_vdot_neg_both(in_unit_sphere);
            }
            in_unit_sphere.neg()
        }
    }

    /// Rejection-sample a nonzero vector strictly inside the unit disk
    /// of the xy-plane; the same retry note as for the ball applies.
    pub fn random_in_unit_disk(rng: &mut SeededRng) -> (r: Vec3)
        ensures
            (r, final(rng).state) == random_in_unit_disk_spec(old(rng).state),
            0 < vdot(r, r) < ONE,
            r.z == 0,
    {
        let mut i: u64 = 0;
        while i < 64
            invariant
                i <= 64,
                disk_reject_spec(old(rng).state, 64) == disk_reject_spec(rng.state, 64 - i),
            decreases 64 - i,
        {
            let ghost s_pre: u64 = rng.state;
            let x: i64 = rng.next_in_range(-ONE, ONE);
            let y: i64 = rng.next_in_range(-ONE, ONE);
            let p: Vec3 = Vec3 { x, y, z: 0 };
            let ls: i64 = p.length_squared();
            proof {
                assert(disk_reject_spec(s_pre, 64 - i) == (if 0 < vdot(p, p) < ONE as int {
                    (p, rng.state)
                } else {
                    disk_reject_spec(rng.state, 64 - i - 1)
                }));
            }
            if 0 < ls && ls < ONE {
                return p;
            }
            i = i + 1;
        }
        let fallback: Vec3 = Vec3 { x: 500_000, y: 0, z: 0 };
        proof {
            assert(500_000int * 500_000int == 250_000_000_000int) by (nonlinear_arith);
            assert(250_000_000_000int / 1_000_000int == 250_000int) by (nonlinear_arith);
            assert(fmul(500_000, 500_000) == 250_000);
            assert(fmul(0, 0) == 0);
            assert(vdot(fallback, fallback) == 250_000);
        }
        fallback
    }

    /// A random draw from the unit ball, scaled to unit length.
    pub fn random_unit_vector(rng: &mut SeededRng) -> (r: Vec3)
        ensures
            (r, final(rng).state) == random_unit_vector_spec(old(rng).state),
            exists|v: Vec3| 0 < vdot(v, v) < ONE && r == vnormalize(v),
    {
        let p: Vec3 = Self::random_in_unit_sphere(rng);
        let r: Vec3 = p.normalize();
        proof {
            assert(0 < vdot(p, p) < ONE && r == vnormalize(p));
        }
        r
    }
}

} // verus!
