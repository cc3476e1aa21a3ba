//! Pure-math helpers: fixed-point vectors, triangle centroids, and an exact
//! integer square root. No state.
//!
//! Scalars are `i64` values carrying an implicit fixed-point scale; all
//! operations here state their results exactly over the integers.

use vstd::prelude::*;

verus! {

/// The fixed-point unit: a scalar quantity of `1.0` is stored as `FP_ONE`.
pub const FP_ONE: i64 = 1_000_000;

/// A three-component fixed-point vector.
#[derive(Clone, Copy, PartialEq, Eq, Structural, Debug)]
pub struct Vec3 {
    pub x: i64,
    pub y: i64,
    pub z: i64,
}

/// A two-component fixed-point vector.
#[derive(Clone, Copy, PartialEq, Eq, Structural, Debug)]
pub struct Vec2 {
    pub x: i64,
    pub y: i64,
}

/// Componentwise difference of two vectors.
pub fn vec3_sub(v1: Vec3, v2: Vec3) -> (r: Vec3)
    requires
        i64::MIN <= v1.x - v2.x <= i64::MAX,
        i64::MIN <= v1.y - v2.y <= i64::MAX,
        i64::MIN <= v1.z - v2.z <= i64::MAX,
    ensures
        r.x == v1.x - v2.x,
        r.y == v1.y - v2.y,
        r.z == v1.z - v2.z,
{
    Vec3 { x: v1.x - v2.x, y: v1.y - v2.y, z: v1.z - v2.z }
}

/// The centroid of a triangle whose vertex coordinate sums are divisible by
/// three, computed exactly.
pub fn triangle_centroid(a: Vec3, b: Vec3, c: Vec3) -> (r: Vec3)
    requires
        i64::MIN <= a.x + b.x + c.x <= i64::MAX,
        i64::MIN <= a.y + b.y + c.y <= i64::MAX,
        i64::MIN <= a.z + b.z + c.z <= i64::MAX,
        (a.x + b.x + c.x) % 3 == 0,
        (a.y + b.y + c.y) % 3 == 0,
        (a.z + b.z + c.z) % 3 == 0,
    ensures
        3 * r.x == a.x + b.x + c.x,
        3 * r.y == a.y + b.y + c.y,
        3 * r.z == a.z + b.z + c.z,
{
    let sx: i128 = a.x as i128 + b.x as i128 + c.x as i128;
    let sy: i128 = a.y as i128 + b.y as i128 + c.y as i128;
    let sz: i128 = a.z as i128 + b.z as i128 + c.z as i128;
    Vec3 { x: (sx / 3) as i64, y: (sy / 3) as i64, z: (sz / 3) as i64 }
}


/// Truncating division (the machine's signed division), for a positive
/// divisor: the quotient rounds toward zero.
pub open spec fn div_trunc(a: int, b: int) -> int {
    if a >= 0 {
        a / b
    } else {
        -((-a) / b)
    }
}

/// Truncating division of an `i128` by a positive divisor.
pub fn div_fp(a: i128, b: i128) -> (r: i128)
    requires
        b > 0,
        a > i128::MIN,
    ensures
        r == div_trunc(a as int, b as int),
{
    if a >= 0 {
        let q = (a as u128) / (b as u128);
        proof {
            vstd::arithmetic::div_mod::lemma_div_nonincreasing(a as int, b as int);
            vstd::arithmetic::div_mod::lemma_div_pos_is_pos(a as int, b as int);
            assert(q == a as int / b as int);
        }
        q as i128
    } else {
        let neg = (-a) as u128;
        let q = neg / (b as u128);
        proof {
            assert(neg == -(a as int));
            vstd::arithmetic::div_mod::lemma_div_nonincreasing(-(a as int), b as int);
            vstd::arithmetic::div_mod::lemma_div_pos_is_pos(-(a as int), b as int);
            assert(q == (-(a as int)) / (b as int));
            assert(q <= -(a as int));
        }
        -(q as i128)
    }
}


/// Bound on a truncating quotient from a bound on the dividend.
pub proof fn lemma_div_trunc_bound(a: int, b: int, m: int)
    requires
        b >= 1,
        0 <= m,
        -m <= a <= m,
    ensures
        -(m / b) <= div_trunc(a, b) <= m / b,
{
    if a >= 0 {
        vstd::arithmetic::div_mod::lemma_div_is_ordered(a, m, b);
        vstd::arithmetic::div_mod::lemma_div_pos_is_pos(a, b);
    } else {
        vstd::arithmetic::div_mod::lemma_div_is_ordered(-a, m, b);
        vstd::arithmetic::div_mod::lemma_div_pos_is_pos(-a, b);
    }
}

/// Bound on a product from bounds on its factors.
pub proof fn lemma_mul_bound(a: int, b: int, ma: int, mb: int)
    requires
        0 <= ma,
        0 <= mb,
        -ma <= a <= ma,
        -mb <= b <= mb,
    ensures
        -(ma * mb) <= a * b <= ma * mb,
{
    assert(-(ma * mb) <= a * b <= ma * mb) by (nonlinear_arith)
        requires
            0 <= ma,
            0 <= mb,
            -ma <= a <= ma,
            -mb <= b <= mb,
    ;
}


/// A value clamped into `[-lim, lim]`.
pub open spec fn clamp_to(v: int, lim: int) -> int {
    if v > lim {
        lim
    } else if v < -lim {
        -lim
    } else {
        v
    }
}

/// Clamps an `i128` into `[-lim, lim]`.
pub fn clamp_i128(v: i128, lim: i64) -> (r: i64)
    requires
        lim >= 0,
    ensures
        r == clamp_to(v as int, lim as int),
{
    if v > lim as i128 {
        lim
    } else if v < -(lim as i128) {
        -lim
    } else {
        v as i64
    }
}

/// The integer square root: the largest `r` with `r * r <= n`.
pub fn isqrt(n: u128) -> (r: u128)
    ensures
        r * r <= n,
        (r + 1) * (r + 1) > n,
{
    if n == 0 {
        return 0;
    }
    let mut lo: u128 = 0;
    let mut hi: u128 = 0x1_0000_0000_0000_0000;
    proof {
        assert(hi * hi > n) by (nonlinear_arith)
            requires
                hi == 0x1_0000_0000_0000_0000u128,
                n <= u128::MAX,
        ;
    }
    while lo + 1 < hi
        invariant
            lo < hi,
            hi <= 0x1_0000_0000_0000_0000,
            lo * lo <= n,
            hi * hi > n,
        decreases hi - lo,
    {
        let mid = lo + (hi - lo) / 2;
        proof {
            assert(lo < mid < hi);
            assert(mid * mid <= u128::MAX) by (nonlinear_arith)
                requires
                    mid < 0x1_0000_0000_0000_0000u128,
            ;
        }
        if mid * mid <= n {
            lo = mid;
        } else {
            hi = mid;
        }
    }
    lo
}


/// Whether `r` is the floor of the square root of `n`.
pub open spec fn is_sqrt_floor(n: int, r: int) -> bool {
    0 <= r && r * r <= n && (r + 1) * (r + 1) > n
}

/// The floor of a square root, as the unique integer whose square brackets
/// `n`.
pub open spec fn sqrt_floor(n: int) -> int {
    choose|r: int| is_sqrt_floor(n, r)
}

/// Any witness with a bracketing square is the floor square root.
pub proof fn lemma_sqrt_floor_is(n: int, r: int)
    requires
        0 <= r,
        r * r <= n,
        (r + 1) * (r + 1) > n,
    ensures
        sqrt_floor(n) == r,
{
    assert(exists|x: int| is_sqrt_floor(n, x)) by {
        assert(is_sqrt_floor(n, r));
    }
    let c = sqrt_floor(n);
    assert(is_sqrt_floor(n, c));
    if c < r {
        assert((c + 1) * (c + 1) <= r * r) by (nonlinear_arith)
            requires
                0 <= c,
                c + 1 <= r,
        ;
    } else if r < c {
        assert((r + 1) * (r + 1) <= c * c) by (nonlinear_arith)
            requires
                0 <= r,
                r + 1 <= c,
        ;
    }
}

} // verus!
