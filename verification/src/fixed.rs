//! Fixed-point value arithmetic.
//!
//! A real value is a signed count of microunits: the integer `v` stands
//! for the real number `v / SCALE_ONE`. All values handled by the
//! numeric core lie in `[-VAL_MAX, VAL_MAX]` microunits; arithmetic that
//! would leave that range saturates at its edges.

use vstd::prelude::*;
use vstd::arithmetic::div_mod::lemma_fundamental_div_mod;

verus! {

/// Microunits per real unit.
pub const SCALE_ONE: i64 = 1_000_000;

/// Largest value magnitude, in microunits, that a tensor element may hold.
pub const VAL_MAX: i64 = 1_000_000_000_000_000;

/// One element of a floating tensor: either a definite value in
/// microunits, or the undefined-value sentinel that a numeric domain
/// error (such as the square root of a negative value) leaves behind.
#[derive(Clone, Copy, Debug, PartialEq, Eq, Structural)]
pub enum Elem {
    Num(i64),
    Undefined,
}

pub open spec fn elem_defined(e: Elem) -> bool {
    match e {
        Elem::Num(_) => true,
        Elem::Undefined => false,
    }
}

pub open spec fn elem_val(e: Elem) -> int {
    match e {
        Elem::Num(v) => v as int,
        Elem::Undefined => 0,
    }
}

/// A definite element within the representable value range.
pub open spec fn elem_ok(e: Elem) -> bool {
    elem_defined(e) ==> -VAL_MAX <= elem_val(e) <= VAL_MAX
}

pub open spec fn abs_i(v: int) -> int {
    if v < 0 { -v } else { v }
}

pub open spec fn clamp_i(v: int, lo: int, hi: int) -> int {
    if v < lo { lo } else if v > hi { hi } else { v }
}

/// Division rounded to the nearest integer, ties away from zero.
/// Meaningful for positive divisors.
pub open spec fn round_div(v: int, s: int) -> int {
    if v >= 0 { (v + s / 2) / s } else { -((-v + s / 2) / s) }
}

/// Rounding to the nearest multiple of the divisor misses the dividend
/// by at most half a divisor step, and never grows the magnitude.
pub proof fn lemma_round_div_err(v: int, s: int)
    requires
        1 <= s,
    ensures
        2 * abs_i(round_div(v, s) * s - v) <= s,
        abs_i(round_div(v, s)) <= abs_i(v),
{
    lemma_round_div_err_nonneg(abs_i(v), s);
    if v < 0 {
        let q = round_div(-v, s);
        assert(round_div(v, s) == -q);
        assert((-q) * s == -(q * s)) by (nonlinear_arith);
        assert(round_div(v, s) * s - v == -(q * s - (-v)));
    }
}

proof fn lemma_round_div_err_nonneg(v: int, s: int)
    requires
        1 <= s,
        0 <= v,
    ensures
        2 * abs_i(round_div(v, s) * s - v) <= s,
        0 <= round_div(v, s) <= v,
{
    let h = s / 2;
    let q = (v + h) / s;
    let r = (v + h) % s;
    lemma_fundamental_div_mod(v + h, s);
    assert(v + h == s * q + r);
    assert(0 <= r < s);
    assert(2 * h <= s && s <= 2 * h + 1);
    // q * s - v == h - r, and h - r lies in [h - s + 1, h].
    assert(q * s - v == h - r);
    assert(2 * (q * s - v) <= 2 * h);
    assert(2 * (v - q * s) == 2 * (r - h) <= 2 * (s - 1 - h));
    assert(2 * (s - 1 - h) <= s);
    // 0 <= q <= v: q*s is within s/2 of v and s >= 1.
    assert(q >= 0) by {
        if q < 0 {
            assert(q <= -1);
            assert(s * q <= s * -1) by (nonlinear_arith)
                requires q <= -1, s >= 1;
            assert(v + h < 0);
        }
    }
    assert(q <= v) by {
        if q > v {
            assert(q >= v + 1);
            assert(s * q >= s * (v + 1)) by (nonlinear_arith)
                requires q >= v + 1, s >= 1;
            assert(s * (v + 1) == s * v + s) by (nonlinear_arith);
            assert(s * v >= v) by (nonlinear_arith)
                requires s >= 1, v >= 0;
            assert(v + h >= s * q);
        }
    }
}

/// Division of a value in microunits by a positive step, rounded to the
/// nearest integer with ties away from zero.
pub fn round_div_i64(v: i64, s: i64) -> (r: i64)
    requires
        1 <= s,
    ensures
        r == round_div(v as int, s as int),
        abs_i(r as int) <= abs_i(v as int),
{
    proof {
        lemma_round_div_err(v as int, s as int);
    }
    let sw = s as u128;
    if v >= 0 {
        let m = v as u128;
        let q = (m + sw / 2) / sw;
        assert(q == (v as int + (s as int) / 2) / (s as int));
        q as i64
    } else {
        let m = (-(v as i128)) as u128;
        assert(m == -(v as int));
        let q = (m + sw / 2) / sw;
        assert(q == (-(v as int) + (s as int) / 2) / (s as int));
        let r = -(q as i128);
        assert(r == round_div(v as int, s as int));
        r as i64
    }
}

/// Clamp a value into `[lo, hi]`.
pub fn clamp_i64(v: i64, lo: i64, hi: i64) -> (r: i64)
    requires
        lo <= hi,
    ensures
        r == clamp_i(v as int, lo as int, hi as int),
{
    if v < lo {
        lo
    } else if v > hi {
        hi
    } else {
        v
    }
}

/// Sum of two values, saturating at the edges of the representable range.
pub open spec fn add_sat(a: int, b: int) -> int {
    clamp_i(a + b, -VAL_MAX as int, VAL_MAX as int)
}

/// Difference of two values, saturating at the edges of the representable range.
pub open spec fn sub_sat(a: int, b: int) -> int {
    clamp_i(a - b, -VAL_MAX as int, VAL_MAX as int)
}

/// Product of two values in microunits, rounded to the nearest microunit
/// and saturating at the edges of the representable range.
pub open spec fn mul_fixed(a: int, b: int) -> int {
    clamp_i(round_div(a * b, SCALE_ONE as int), -VAL_MAX as int, VAL_MAX as int)
}

pub fn add_sat_i64(a: i64, b: i64) -> (r: i64)
    requires
        abs_i(a as int) <= VAL_MAX,
        abs_i(b as int) <= VAL_MAX,
    ensures
        r == add_sat(a as int, b as int),
{
    clamp_i64(a + b, -VAL_MAX, VAL_MAX)
}

pub fn sub_sat_i64(a: i64, b: i64) -> (r: i64)
    requires
        abs_i(a as int) <= VAL_MAX,
        abs_i(b as int) <= VAL_MAX,
    ensures
        r == sub_sat(a as int, b as int),
{
    clamp_i64(a - b, -VAL_MAX, VAL_MAX)
}

pub fn mul_fixed_i64(a: i64, b: i64) -> (r: i64)
    requires
        abs_i(a as int) <= VAL_MAX,
        abs_i(b as int) <= VAL_MAX,
    ensures
        r == mul_fixed(a as int, b as int),
{
    let negative = (a < 0) != (b < 0);
    let pa = if a < 0 { (-(a as i128)) as u128 } else { a as u128 };
    let pb = if b < 0 { (-(b as i128)) as u128 } else { b as u128 };
    proof {
        assert(pa == abs_i(a as int) && pb == abs_i(b as int));
        assert(pa * pb == abs_i((a as int) * (b as int))) by (nonlinear_arith)
            requires
                pa == abs_i(a as int),
                pb == abs_i(b as int);
        assert(negative && pa * pb != 0 ==> (a as int) * (b as int) < 0) by (nonlinear_arith)
            requires
                pa == abs_i(a as int),
                pb == abs_i(b as int),
                negative ==> ((a as int) < 0) != ((b as int) < 0);
        assert(!negative ==> (a as int) * (b as int) >= 0) by (nonlinear_arith)
            requires
                !negative ==> ((a as int) < 0) == ((b as int) < 0);
    }
    proof {
        assert(pa * pb <= (VAL_MAX as int) * (VAL_MAX as int)) by (nonlinear_arith)
            requires
                pa <= VAL_MAX as u128,
                pb <= VAL_MAX as u128;
    }
    let m = pa * pb;
    let q = (m + 500_000) / 1_000_000;
    let ghost p = (a as int) * (b as int);
    proof {
        assert(q == (abs_i(p) + (SCALE_ONE as int) / 2) / (SCALE_ONE as int));
        if negative && m != 0 {
            assert(round_div(p, SCALE_ONE as int) == -(q as int));
        } else {
            assert(p == abs_i(p));
            assert(round_div(p, SCALE_ONE as int) == q as int);
        }
    }
    let capped = if q > VAL_MAX as u128 { VAL_MAX } else { q as i64 };
    if negative && m != 0 {
        -capped
    } else {
        capped
    }
}

/// `r` is the floor of the square root of `n`.
pub open spec fn is_floor_sqrt(n: int, r: int) -> bool {
    &&& 0 <= r
    &&& r * r <= n
    &&& n < (r + 1) * (r + 1)
}

/// Floor of the square root of a non-negative integer, by bisection.
pub fn isqrt_u128(n: u128) -> (r: u64)
    requires
        n <= 1_000_000_000_000_000_000_000u128,
    ensures
        is_floor_sqrt(n as int, r as int),
{
    let mut lo: u64 = 0;
    let mut hi: u64 = 68_719_476_736;
    proof {
        assert((hi as int) * (hi as int) > n as int);
    }
    while lo + 1 < hi
        invariant
            lo < hi <= 68_719_476_736,
            (lo as int) * (lo as int) <= n as int,
            (n as int) < (hi as int) * (hi as int),
        decreases hi - lo,
    {
        let mid = lo + (hi - lo) / 2;
        proof {
            assert((mid as int) * (mid as int) <= 68_719_476_736i64 as int
                * 68_719_476_736i64 as int) by (nonlinear_arith)
                requires 0 <= mid as int <= 68_719_476_736;
        }
        if (mid as u128) * (mid as u128) <= n {
            lo = mid;
        } else {
            hi = mid;
        }
    }
    lo
}

/// Square root of a non-negative value in microunits, rounded down to
/// the nearest microunit.
pub fn sqrt_fixed(v: i64) -> (r: i64)
    requires
        0 <= v <= VAL_MAX,
    ensures
        is_floor_sqrt((v as int) * (SCALE_ONE as int), r as int),
        0 <= r <= VAL_MAX,
{
    let n = (v as u128) * 1_000_000;
    let r = isqrt_u128(n);
    proof {
        assert(r <= 31_622_776_601) by {
            if r >= 31_622_776_602 {
                assert((r as int) * (r as int) >= 31_622_776_602i64 as int
                    * 31_622_776_602i64 as int) by (nonlinear_arith)
                    requires r as int >= 31_622_776_602;
            }
        }
    }
    r as i64
}

} // verus!
