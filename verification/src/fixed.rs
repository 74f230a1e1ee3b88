//! Fixed-point arithmetic: reals in ten-thousandths, floor division, integer
//! square root and three-component vectors.

use vstd::prelude::*;

verus! {

/// The fixed-point representation of `1.0`. A real `v` is held as the integer
/// `v * UNIT`.
pub const UNIT: i32 = 10_000;

/// `v` limited to the closed interval `[lo, hi]`.
pub open spec fn clamp(v: int, lo: int, hi: int) -> int {
    if v < lo {
        lo
    } else if v > hi {
        hi
    } else {
        v
    }
}

/// `v` limited to `[0, UNIT]`, the fixed-point unit interval.
pub open spec fn unit_clamp(v: int) -> int {
    clamp(v, 0, UNIT as int)
}

/// Limits a fixed-point value to the unit interval.
pub fn clamp_unit(v: i64) -> (r: i32)
    ensures
        r == unit_clamp(v as int),
        0 <= r <= UNIT,
{
    if v < 0 {
        0
    } else if v > UNIT as i64 {
        UNIT
    } else {
        v as i32
    }
}

/// Division rounding toward negative infinity, for a positive divisor.
pub fn div_floor(n: i128, d: i128) -> (q: i128)
    requires
        d > 0,
    ensures
        q == n as int / d as int,
{
    if n >= 0 {
        n / d
    } else {
        let m: i128 = -(n + 1);
        let q0: i128 = m / d;
        let ghost mi: int = m as int;
        let ghost di: int = d as int;
        assert((-(mi + 1)) / di == -(mi / di) - 1) by (nonlinear_arith)
            requires
                mi >= 0,
                di > 0,
        ;
        -q0 - 1
    }
}

/// The integer square root: the largest `r` with `r * r <= n`.
pub open spec fn isqrt(n: nat) -> nat
    decreases n,
{
    if n == 0 {
        0
    } else {
        let r = isqrt((n - 1) as nat);
        if (r + 1) * (r + 1) <= n {
            r + 1
        } else {
            r
        }
    }
}

/// `isqrt(n)` squared does not exceed `n`, and the next integer's square does.
pub proof fn lemma_isqrt_bounds(n: nat)
    ensures
        isqrt(n) * isqrt(n) <= n,
        n < (isqrt(n) + 1) * (isqrt(n) + 1),
    decreases n,
{
    let s = isqrt(n);
    if n > 0 {
        lemma_isqrt_bounds((n - 1) as nat);
        let r = isqrt((n - 1) as nat);
        assert(r * r <= n - 1);
        assert(n - 1 < (r + 1) * (r + 1));
        if (r + 1) * (r + 1) <= n {
            assert(s == r + 1);
            assert((r + 1) * (r + 1) < (r + 1 + 1) * (r + 1 + 1)) by (nonlinear_arith);
            assert(s * s <= n);
            assert(n < (s + 1) * (s + 1));
        } else {
            assert(s == r);
            assert(s * s <= n);
            assert(n < (s + 1) * (s + 1));
        }
    } else {
        assert(s == 0);
        assert(s * s == 0) by (nonlinear_arith)
            requires
                s == 0,
        ;
        assert((s + 1) * (s + 1) == 1) by (nonlinear_arith)
            requires
                s == 0,
        ;
    }
}

/// Only one integer has its square at or below `n` and its successor's above.
pub proof fn lemma_isqrt_unique(n: nat, r: nat)
    requires
        r * r <= n,
        n < (r + 1) * (r + 1),
    ensures
        r == isqrt(n),
{
    lemma_isqrt_bounds(n);
    let s = isqrt(n);
    if r < s {
        assert((r + 1) * (r + 1) <= s * s) by (nonlinear_arith)
            requires
                r + 1 <= s,
        ;
    } else if s < r {
        assert((s + 1) * (s + 1) <= r * r) by (nonlinear_arith)
            requires
                s + 1 <= r,
        ;
    }
}

/// Computes the integer square root by bisection.
pub fn integer_sqrt(n: u128) -> (r: u64)
    ensures
        r == isqrt(n as nat),
{
    let mut lo: u128 = 0;
    let mut hi: u128 = 0x1_0000_0000_0000_0000;
    assert(n < hi * hi) by (nonlinear_arith)
        requires
            hi == 0x1_0000_0000_0000_0000,
            n <= u128::MAX,
    ;
    while hi - lo > 1
        invariant
            lo < hi <= 0x1_0000_0000_0000_0000,
            lo * lo <= n,
            n < hi * hi,
        decreases hi - lo,
    {
        let mid: u128 = lo + (hi - lo) / 2;
        assert(mid * mid <= 0xFFFF_FFFF_FFFF_FFFF * 0xFFFF_FFFF_FFFF_FFFF) by (nonlinear_arith)
            requires
                0 <= mid <= 0xFFFF_FFFF_FFFF_FFFF,
        ;
        if mid * mid <= n {
            lo = mid;
        } else {
            hi = mid;
        }
    }
    proof {
        lemma_isqrt_unique(n as nat, lo as nat);
    }
    lo as u64
}

/// A vector of three fixed-point components.
#[derive(Clone, Copy, Debug, PartialEq, Eq, Structural)]
pub struct Vector3 {
    pub x: i32,
    pub y: i32,
    pub z: i32,
}

impl Vector3 {
    /// The vector with the given components.
    pub fn new(x: i32, y: i32, z: i32) -> (v: Vector3)
        ensures
            v == (Vector3 { x, y, z }),
    {
        Vector3 { x, y, z }
    }
}

/// The dot product of two vectors given by their components.
pub open spec fn dot(ax: int, ay: int, az: int, bx: int, by: int, bz: int) -> int {
    ax * bx + ay * by + az * bz
}

/// The Lambertian diffuse term of a surface point: the cosine of the angle
/// between `normal` and the direction from `position` to `light`, in fixed
/// point, or `0` where the surface faces away from the light or either
/// direction has no length. Lengths are integer square roots, so the quotient
/// is capped at `UNIT`.
pub open spec fn lambert(normal: Vector3, position: Vector3, light: Vector3) -> int {
    let lx = light.x - position.x;
    let ly = light.y - position.y;
    let lz = light.z - position.z;
    let d = dot(normal.x as int, normal.y as int, normal.z as int, lx, ly, lz);
    let nn = dot(
        normal.x as int,
        normal.y as int,
        normal.z as int,
        normal.x as int,
        normal.y as int,
        normal.z as int,
    );
    let ll = dot(lx, ly, lz, lx, ly, lz);
    if d <= 0 || nn <= 0 || ll <= 0 {
        0
    } else {
        let den = isqrt(nn as nat) * isqrt(ll as nat);
        let q = d * UNIT / (den as int);
        if q > UNIT {
            UNIT as int
        } else {
            q
        }
    }
}

/// A square is bounded by the square of a bound on its root.
pub proof fn lemma_square_bound(v: int, m: int)
    requires
        -m <= v <= m,
    ensures
        0 <= v * v <= m * m,
{
    assert(0 <= v * v <= m * m) by (nonlinear_arith)
        requires
            -m <= v <= m,
    ;
}

/// A product is bounded by the product of bounds on its factors.
pub proof fn lemma_product_bound(a: int, b: int, m: int, k: int)
    requires
        -m <= a <= m,
        -k <= b <= k,
    ensures
        -(m * k) <= a * b <= m * k,
{
    assert(-(m * k) <= a * b <= m * k) by (nonlinear_arith)
        requires
            -m <= a <= m,
            -k <= b <= k,
    ;
}

/// Computes the diffuse term of a surface point under a point light.
pub fn diffuse(normal: &Vector3, position: &Vector3, light: &Vector3) -> (r: i32)
    ensures
        r == lambert(*normal, *position, *light),
        0 <= r <= UNIT,
{
    let nx: i128 = normal.x as i128;
    let ny: i128 = normal.y as i128;
    let nz: i128 = normal.z as i128;
    let lx: i128 = light.x as i128 - position.x as i128;
    let ly: i128 = light.y as i128 - position.y as i128;
    let lz: i128 = light.z as i128 - position.z as i128;
    let ghost m: int = 0x8000_0000;
    let ghost k: int = 0x1_0000_0000;
    proof {
        lemma_product_bound(nx as int, lx as int, m, k);
        lemma_product_bound(ny as int, ly as int, m, k);
        lemma_product_bound(nz as int, lz as int, m, k);
        lemma_square_bound(nx as int, m);
        lemma_square_bound(ny as int, m);
        lemma_square_bound(nz as int, m);
        lemma_square_bound(lx as int, k);
        lemma_square_bound(ly as int, k);
        lemma_square_bound(lz as int, k);
        assert(m * k == 0x8000_0000_0000_0000);
        assert(m * m == 0x4000_0000_0000_0000);
        assert(k * k == 0x1_0000_0000_0000_0000);
    }
    let d: i128 = nx * lx + ny * ly + nz * lz;
    let nn: i128 = nx * nx + ny * ny + nz * nz;
    let ll: i128 = lx * lx + ly * ly + lz * lz;
    if d <= 0 || nn <= 0 || ll <= 0 {
        return 0;
    }
    let sn: u64 = integer_sqrt(nn as u128);
    let sl: u64 = integer_sqrt(ll as u128);
    proof {
        lemma_isqrt_bounds(nn as nat);
        lemma_isqrt_bounds(ll as nat);
        assert(sn >= 1) by (nonlinear_arith)
            requires
                nn >= 1,
                nn < (sn + 1) * (sn + 1),
                sn >= 0,
        ;
        assert(sl >= 1) by (nonlinear_arith)
            requires
                ll >= 1,
                ll < (sl + 1) * (sl + 1),
                sl >= 0,
        ;
        assert(1 <= sn * sl <= 0xFFFF_FFFF_FFFF_FFFF * 0xFFFF_FFFF_FFFF_FFFF) by (nonlinear_arith)
            requires
                1 <= sn <= 0xFFFF_FFFF_FFFF_FFFF,
                1 <= sl <= 0xFFFF_FFFF_FFFF_FFFF,
        ;
    }
    let den: u128 = sn as u128 * sl as u128;
    if den > i128::MAX as u128 {
        proof {
            assert(d * UNIT / (den as int) == 0) by (nonlinear_arith)
                requires
                    0 < d <= 3 * 0x8000_0000_0000_0000,
                    UNIT == 10_000,
                    den > 0x7FFF_FFFF_FFFF_FFFF_FFFF_FFFF_FFFF_FFFF,
            ;
        }
        return 0;
    }
    let q: i128 = d * UNIT as i128 / den as i128;
    if q > UNIT as i128 {
        UNIT
    } else {
        proof {
            assert(d * UNIT / (den as int) >= 0) by (nonlinear_arith)
                requires
                    d > 0,
                    UNIT == 10_000,
                    den > 0,
            ;
        }
        q as i32
    }
}

} // verus!
