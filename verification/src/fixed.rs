//! Fixed-point scalar arithmetic.
//!
//! A raw value counts steps of `1 / FP_ONE` world units (or seconds, for
//! times).  Products and quotients of raw values are computed through
//! `i128` intermediates and rounded toward zero, so a computed move never
//! overshoots the exact one.

use vstd::prelude::*;

verus! {

use vstd::math::abs;

/// One world unit (or one second), in raw fixed-point steps.
pub const FP_ONE: i64 = 1048576;

/// Largest raw magnitude accepted for a position coordinate.
pub const COORD_LIMIT: i64 = 0x100_0000_0000;

/// Largest raw magnitude accepted for a velocity component.
pub const VEL_LIMIT: i64 = 0x4000_0000;

/// Largest raw time span accepted for one step.
pub const TIME_LIMIT: i64 = 0x80_0000;

/// How close to a surface a box face must be to count as touching it:
/// one ten-thousandth of a world unit, rounded down to raw steps.
pub const SURFACE_MARGIN: i64 = 104;

/// Impact speeds below one tenth of a unit per second do not bounce.
pub const MIN_V_BOUNCE: i64 = 104857;

/// Floor division: the unique `q` with `q * b <= a < (q + 1) * b`, for
/// `b > 0`.  This is what `/` means on `int` in contracts (euclidean
/// division), so the result is stated exactly.
pub fn floor_div(a: i128, b: i128) -> (q: i128)
    requires
        0 < b,
    ensures
        q == a as int / b as int,
{
    proof {
        lemma_div_bounds(a as int, b as int);
    }
    let opt = a.checked_div_euclid(b);
    opt.unwrap()
}

/// For a positive divisor the euclidean quotient lies between `a` and `0`
/// (whichever order applies).
pub proof fn lemma_div_bounds(a: int, b: int)
    requires
        0 < b,
    ensures
        a < 0 ==> a <= a / b <= 0,
        0 <= a ==> 0 <= a / b <= a,
{
    vstd::arithmetic::div_mod::lemma_fundamental_div_mod(a, b);
    let q = a / b;
    let r = a % b;
    assert(a == b * q + r);
    if a >= 0 {
        vstd::arithmetic::div_mod::lemma_div_pos_is_pos(a, b);
        assert(q <= a) by (nonlinear_arith)
            requires
                a == b * q + r,
                0 <= r,
                1 <= b,
                0 <= q,
        ;
    } else {
        assert(q <= 0 && a <= q) by (nonlinear_arith)
            requires
                a == b * q + r,
                0 <= r < b,
                1 <= b,
                a < 0,
        ;
    }
}

/// Any product of two `i64` values fits well inside `i128`.
pub proof fn lemma_i64_product_range(a: i64, b: i64)
    ensures
        -0x4000_0000_0000_0000_0000_0000_0000_0000 <= (a as int) * (b as int)
            <= 0x4000_0000_0000_0000_0000_0000_0000_0000,
{
    assert(-0x4000_0000_0000_0000_0000_0000_0000_0000 <= (a as int) * (b as int)
        <= 0x4000_0000_0000_0000_0000_0000_0000_0000) by (nonlinear_arith)
        requires
            i64::MIN <= a <= i64::MAX,
            i64::MIN <= b <= i64::MAX,
    ;
}

/// Raw product `a * b / FP_ONE`, rounded toward zero.
pub open spec fn fx_mul_spec(a: int, b: int) -> int {
    if 0 <= a * b {
        (a * b) / (FP_ONE as int)
    } else {
        -((-(a * b)) / (FP_ONE as int))
    }
}

/// Raw quotient `a * FP_ONE / b`, rounded toward zero.
pub open spec fn fx_div_spec(a: int, b: int) -> int {
    let m = (abs(a) as int) * (FP_ONE as int) / (abs(b) as int);
    if (0 <= a) == (0 < b) {
        m
    } else {
        -m
    }
}

/// The magnitude of a truncated product is monotone in the magnitudes of
/// its factors.
pub proof fn lemma_fx_mul_bound(a: int, b: int, ba: int, bb: int)
    requires
        abs(a) <= ba,
        abs(b) <= bb,
    ensures
        abs(fx_mul_spec(a, b)) <= ba * bb / (FP_ONE as int),
{
    let p = a * b;
    assert(-(ba * bb) <= p <= ba * bb) by (nonlinear_arith)
        requires
            p == a * b,
            -ba <= a <= ba,
            -bb <= b <= bb,
            0 <= ba,
            0 <= bb,
    ;
    vstd::arithmetic::div_mod::lemma_div_is_ordered(abs(p) as int, ba * bb, FP_ONE as int);
    vstd::arithmetic::div_mod::lemma_div_pos_is_pos(abs(p) as int, FP_ONE as int);
    if 0 <= p {
        assert(fx_mul_spec(a, b) == p / (FP_ONE as int));
        assert(abs(p) == p);
    } else {
        assert(fx_mul_spec(a, b) == -((-p) / (FP_ONE as int)));
        assert(abs(p) == -p);
    }
}

/// Fixed-point multiply: `a * b / FP_ONE`, rounded toward zero.
pub fn fx_mul(a: i64, b: i64) -> (r: i64)
    requires
        i64::MIN <= fx_mul_spec(a as int, b as int) <= i64::MAX,
    ensures
        r == fx_mul_spec(a as int, b as int),
{
    let p: i128 = (a as i128) * (b as i128);
    let q: i128 = if p >= 0 {
        floor_div(p, 1048576)
    } else {
        proof {
            lemma_div_bounds(-(p as int), FP_ONE as int);
        }
        -floor_div(-p, 1048576)
    };
    q as i64
}

/// Fixed-point divide: `a * FP_ONE / b`, rounded toward zero.
pub fn fx_div(a: i64, b: i64) -> (r: i64)
    requires
        b != 0,
        i64::MIN <= fx_div_spec(a as int, b as int) <= i64::MAX,
    ensures
        r == fx_div_spec(a as int, b as int),
{
    let na: i128 = if a >= 0 {
        a as i128
    } else {
        -(a as i128)
    };
    let nb: i128 = if b >= 0 {
        b as i128
    } else {
        -(b as i128)
    };
    let m: i128 = floor_div(na * 1048576, nb);
    proof {
        lemma_div_bounds(na as int * FP_ONE as int, nb as int);
    }
    let r: i128 = if (a >= 0) == (b > 0) {
        m
    } else {
        -m
    };
    r as i64
}

/// Plain integer divide by a positive divisor, rounded toward minus
/// infinity: exactly what `/` means on `int` in contracts.
pub fn div_floor(a: i64, b: i64) -> (r: i64)
    requires
        0 < b,
    ensures
        r == a as int / b as int,
        a < 0 ==> a <= r <= 0,
        0 <= a ==> 0 <= r <= a,
{
    proof {
        lemma_div_bounds(a as int, b as int);
    }
    floor_div(a as i128, b as i128) as i64
}

/// Plain integer quotient `a / b`, rounded toward zero.
pub open spec fn div_trunc_spec(a: int, b: int) -> int {
    let m = (abs(a) as int) / (abs(b) as int);
    if (0 <= a) == (0 < b) {
        m
    } else {
        -m
    }
}

/// Plain integer divide, rounded toward zero.
pub fn div_trunc(a: i64, b: i64) -> (r: i64)
    requires
        b != 0,
        i64::MIN < a,
    ensures
        r == div_trunc_spec(a as int, b as int),
        -abs(a as int) <= r <= abs(a as int),
{
    let na: i128 = if a >= 0 {
        a as i128
    } else {
        -(a as i128)
    };
    let nb: i128 = if b >= 0 {
        b as i128
    } else {
        -(b as i128)
    };
    let m: i128 = floor_div(na, nb);
    proof {
        lemma_div_bounds(na as int, nb as int);
    }
    let r: i128 = if (a >= 0) == (b > 0) {
        m
    } else {
        -m
    };
    r as i64
}

/// Linear interpolation from `a` to `b` by the raw fraction `t`.
pub fn lerp(a: i64, b: i64, t: i64) -> (r: i64)
    requires
        i64::MIN <= b - a <= i64::MAX,
        i64::MIN <= fx_mul_spec(b - a, t as int) <= i64::MAX,
        i64::MIN <= a + fx_mul_spec(b - a, t as int) <= i64::MAX,
    ensures
        r == a + fx_mul_spec(b - a, t as int),
{
    let d = b - a;
    a + fx_mul(d, t)
}

/// Where `y` falls between `a` and `b`, as a raw fraction: the `t` with
/// `lerp(a, b, t)` closest to `y`.
pub fn prel(a: i64, b: i64, y: i64) -> (r: i64)
    requires
        a != b,
        i64::MIN <= y - a <= i64::MAX,
        i64::MIN <= b - a <= i64::MAX,
        i64::MIN <= fx_div_spec(y - a, b - a) <= i64::MAX,
    ensures
        r == fx_div_spec(y - a, b - a),
{
    fx_div(y - a, b - a)
}

/// Wrap-around remainder, always in `[0, rhs)`.
pub trait Modulo where Self: Sized {
    fn modulo(self, rhs: Self) -> Self;
}

impl Modulo for i64 {
    fn modulo(self, rhs: Self) -> Self {
        if rhs <= 0 {
            0
        } else {
            let opt = self.checked_rem_euclid(rhs);
            opt.unwrap_or(0)
        }
    }
}

/// Integer square root.
pub trait Sqrt where Self: Sized {
    fn sqrt(self) -> Self;
}

impl Sqrt for i64 {
    fn sqrt(self) -> Self {
        if self <= 0 {
            0
        } else {
            isqrt(self as u64) as i64
        }
    }
}

/// Largest `r` with `r * r <= x`.
pub fn isqrt(x: u64) -> (r: u64)
    ensures
        r * r <= x < (r + 1) * (r + 1),
        r <= 0xffff_ffff,
{
    if x == 0 {
        return 0;
    }
    let mut lo: u64 = 0;
    let mut hi: u64 = 0x1_0000_0000;
    while lo + 1 < hi
        invariant
            lo < hi <= 0x1_0000_0000,
            lo * lo <= x,
            (hi as int) * (hi as int) > x,
        decreases hi - lo,
    {
        let mid = lo + (hi - lo) / 2;
        if mid <= 0xffff_ffff {
            proof {
                assert((mid as int) * (mid as int) <= u64::MAX) by (nonlinear_arith)
                    requires
                        mid <= 0xffff_ffffu64,
                ;
            }
            if mid * mid <= x {
                lo = mid;
            } else {
                hi = mid;
            }
        } else {
            proof {
                assert((mid as int) * (mid as int) > x) by (nonlinear_arith)
                    requires
                        mid >= 0x1_0000_0000,
                        x <= u64::MAX,
                ;
            }
            hi = mid;
        }
    }
    lo
}

/// Bit-mixing hash of a lattice coordinate, for procedural noise.
pub open spec fn int_hash_spec(x: u64, seed: u64) -> u64 {
    let a = x ^ seed;
    let b = (((a ^ (a >> 30)) * 0xbf58476d1ce4e5b9) % 0x1_0000_0000_0000_0000) as u64;
    let c = (((b ^ (b >> 27)) * 0x94d049bb133111eb) % 0x1_0000_0000_0000_0000) as u64;
    c ^ (c >> 31)
}

/// Bit-mixing hash of a lattice coordinate, for procedural noise.
pub fn int_hash(x: u64, seed: u64) -> (r: u64)
    ensures
        r == int_hash_spec(x, seed),
{
    let a = x ^ seed;
    let b = (a ^ (a >> 30)).wrapping_mul(0xbf58476d1ce4e5b9);
    let c = (b ^ (b >> 27)).wrapping_mul(0x94d049bb133111eb);
    c ^ (c >> 31)
}

} // verus!
