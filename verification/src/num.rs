//! Integer arithmetic shared by the whole crate: truncating division,
//! saturation, and the integer square root.

use vstd::prelude::*;

verus! {

/// Magnitude of an integer.
pub open spec fn abs(x: int) -> int {
    if x < 0 {
        -x
    } else {
        x
    }
}

/// The smaller of two integers.
pub open spec fn min(a: int, b: int) -> int {
    if a <= b {
        a
    } else {
        b
    }
}

/// The larger of two integers.
pub open spec fn max(a: int, b: int) -> int {
    if a >= b {
        a
    } else {
        b
    }
}

/// `x` brought inside `lo..=hi`.
pub open spec fn clamp(x: int, lo: int, hi: int) -> int {
    if x < lo {
        lo
    } else if x > hi {
        hi
    } else {
        x
    }
}

/// -1, 0 or 1, as `x` is negative, zero or positive.
pub open spec fn sign(x: int) -> int {
    if x < 0 {
        -1
    } else if x > 0 {
        1
    } else {
        0
    }
}

/// Division rounded toward zero, the way the machine divides.
pub open spec fn tdiv(a: int, b: int) -> int {
    if a >= 0 {
        a / b
    } else {
        -((-a) / b)
    }
}

/// The remainder that goes with [`tdiv`]: it takes the sign of `a`.
pub open spec fn trem(a: int, b: int) -> int {
    if a >= 0 {
        a % b
    } else {
        -((-a) % b)
    }
}

/// `r` is the integer part of the square root of `x`.
pub open spec fn is_root(r: int, x: int) -> bool {
    &&& 0 <= r
    &&& r * r <= x
    &&& x < (r + 1) * (r + 1)
}

/// The integer part of the square root of `x`.
pub open spec fn root(x: int) -> int {
    choose|r: int| is_root(r, x)
}

/// A product of two bounded factors is bounded by the product of the bounds.
pub proof fn lemma_mul_bound(a: int, b: int, ma: int, mb: int)
    requires
        abs(a) <= ma,
        abs(b) <= mb,
    ensures
        abs(a * b) <= ma * mb,
{
    assert(-(ma * mb) <= a * b <= ma * mb) by (nonlinear_arith)
        requires
            -ma <= a <= ma,
            -mb <= b <= mb,
    ;
}

/// The integer square root is unique.
pub proof fn lemma_root_unique(r: int, s: int, x: int)
    requires
        is_root(r, x),
        is_root(s, x),
    ensures
        r == s,
{
    if r < s {
        assert((r + 1) * (r + 1) <= s * s) by (nonlinear_arith)
            requires
                0 <= r,
                r + 1 <= s,
        ;
    } else if s < r {
        assert((s + 1) * (s + 1) <= r * r) by (nonlinear_arith)
            requires
                0 <= s,
                s + 1 <= r,
        ;
    }
}

/// A value whose square fits under `x` fits under the root of `x`.
pub proof fn lemma_root_covers(r: int, x: int, c: int)
    requires
        is_root(r, x),
        c * c <= x,
    ensures
        abs(c) <= r,
{
    if c > r {
        assert((r + 1) * (r + 1) <= c * c) by (nonlinear_arith)
            requires
                0 <= r,
                r + 1 <= c,
        ;
    } else if -c > r {
        assert((r + 1) * (r + 1) <= c * c) by (nonlinear_arith)
            requires
                0 <= r,
                r + 1 <= -c,
        ;
    }
}

/// Truncating division by `b` never grows a value, and stays under the bound
/// that the numerator's bound gives.
pub proof fn lemma_tdiv_bound(a: int, b: int, m: int)
    requires
        b > 0,
        0 <= m,
        abs(a) <= m * b,
    ensures
        abs(tdiv(a, b)) <= m,
{
    if a >= 0 {
        assert(a / b <= m && a / b >= 0) by (nonlinear_arith)
            requires
                b > 0,
                0 <= a <= m * b,
        ;
    } else {
        let n = -a;
        assert(n / b <= m && n / b >= 0) by (nonlinear_arith)
            requires
                b > 0,
                0 <= n <= m * b,
        ;
    }
}

/// Magnitude.
pub fn abs_i32(x: i32) -> (r: i32)
    requires
        x > i32::MIN,
    ensures
        r == abs(x as int),
{
    if x < 0 {
        -x
    } else {
        x
    }
}

/// -1, 0 or 1.
pub fn sign_i32(x: i32) -> (r: i32)
    ensures
        r == sign(x as int),
{
    if x < 0 {
        -1
    } else if x > 0 {
        1
    } else {
        0
    }
}

/// The smaller of two.
pub fn min_i32(a: i32, b: i32) -> (r: i32)
    ensures
        r == min(a as int, b as int),
{
    if a <= b {
        a
    } else {
        b
    }
}

/// The larger of two.
pub fn max_i32(a: i32, b: i32) -> (r: i32)
    ensures
        r == max(a as int, b as int),
{
    if a >= b {
        a
    } else {
        b
    }
}

/// `x` brought inside `lo..=hi`.
pub fn clamp_i32(x: i32, lo: i32, hi: i32) -> (r: i32)
    requires
        lo <= hi,
    ensures
        r == clamp(x as int, lo as int, hi as int),
{
    if x < lo {
        lo
    } else if x > hi {
        hi
    } else {
        x
    }
}

/// The full product of two 32-bit values.
pub fn wide_mul(a: i32, b: i32) -> (r: i64)
    ensures
        r == a * b,
        -0x4000_0000_0000_0000 <= r <= 0x4000_0000_0000_0000,
{
    proof {
        lemma_mul_bound(a as int, b as int, 0x8000_0000, 0x8000_0000);
    }
    (a as i64) * (b as i64)
}

/// A square, in full.
pub fn wide_square(a: i32) -> (r: i64)
    ensures
        r == a * a,
        0 <= r <= 0x4000_0000_0000_0000,
{
    assert(0 <= a * a) by (nonlinear_arith);
    wide_mul(a, a)
}

/// `a * b / c`, with the product formed in full and the quotient rounded
/// toward zero.
pub fn mul_div(a: i32, b: i32, c: i32) -> (r: i32)
    requires
        c > 0,
        i32::MIN <= tdiv(a * b, c as int) <= i32::MAX,
    ensures
        r == tdiv(a * b, c as int),
{
    let p: i64 = wide_mul(a, b);
    (p / (c as i64)) as i32
}

/// `(a * b) >> 12`, with the product formed in full.
pub fn mul_shift12(a: i32, b: i32) -> (r: i32)
    requires
        i32::MIN <= (a * b) / 4096 <= i32::MAX,
    ensures
        r == (a * b) / 4096,
{
    shift12(wide_mul(a, b))
}

/// Arithmetic shift down by twelve bits: division by 4096 rounded down.
pub fn shift12(p: i64) -> (r: i32)
    requires
        i32::MIN <= (p as int) / 4096 <= i32::MAX,
    ensures
        r == (p as int) / 4096,
{
    assert(p >> 12 == p / 4096) by (bit_vector);
    (p >> 12) as i32
}

/// Arithmetic shift down by ten bits: division by 1024 rounded down.
pub fn shift10(p: i64) -> (r: i32)
    requires
        i32::MIN <= (p as int) / 1024 <= i32::MAX,
    ensures
        r == (p as int) / 1024,
{
    assert(p >> 10 == p / 1024) by (bit_vector);
    (p >> 10) as i32
}

/// Arithmetic shift down by thirteen bits: division by 8192 rounded down.
pub fn shift13(p: i64) -> (r: i32)
    requires
        i32::MIN <= (p as int) / 8192 <= i32::MAX,
    ensures
        r == (p as int) / 8192,
{
    assert(p >> 13 == p / 8192) by (bit_vector);
    (p >> 13) as i32
}

/// Arithmetic shift down by sixteen bits: division by 65536 rounded down.
pub fn shift16(p: i64) -> (r: i32)
    requires
        i32::MIN <= (p as int) / 65536 <= i32::MAX,
    ensures
        r == (p as int) / 65536,
{
    assert(p >> 16 == p / 65536) by (bit_vector);
    (p >> 16) as i32
}

/// The integer part of the square root of a non-negative value.
pub fn isqrt_i32(x: i32) -> (r: i32)
    requires
        x >= 0,
    ensures
        is_root(r as int, x as int),
        r == root(x as int),
        0 <= r <= 46340,
{
    let wide: i64 = x as i64;
    let mut lo: i64 = 0;
    let mut hi: i64 = 46341;
    assert(46341 * 46341 > 0x7fff_ffff);
    while hi - lo > 1
        invariant
            0 <= lo < hi <= 46341,
            wide == x,
            lo * lo <= wide,
            wide < hi * hi,
        decreases hi - lo,
    {
        let mid: i64 = (lo + hi) / 2;
        assert(0 <= mid * mid <= 46341 * 46341) by (nonlinear_arith)
            requires
                0 <= mid <= 46341,
        ;
        if mid * mid <= wide {
            lo = mid;
        } else {
            hi = mid;
        }
    }
    proof {
        assert(hi == lo + 1);
        assert(is_root(lo as int, x as int));
        lemma_root_unique(lo as int, root(x as int), x as int);
    }
    lo as i32
}

/// The integer part of the square root of a wider non-negative value.
pub fn isqrt_wide(x: i64) -> (r: i32)
    requires
        0 <= x <= 0x400_0000_0000,
    ensures
        is_root(r as int, x as int),
        r == root(x as int),
        0 <= r <= 0x20_0000,
{
    let mut lo: i64 = 0;
    let mut hi: i64 = 0x20_0001;
    while hi - lo > 1
        invariant
            0 <= lo < hi <= 0x20_0001,
            x <= 0x400_0000_0000,
            lo * lo <= x,
            x < hi * hi,
        decreases hi - lo,
    {
        let mid: i64 = (lo + hi) / 2;
        assert(0 <= mid * mid <= 0x20_0001 * 0x20_0001) by (nonlinear_arith)
            requires
                0 <= mid <= 0x20_0001,
        ;
        if mid * mid <= x {
            lo = mid;
        } else {
            hi = mid;
        }
    }
    proof {
        assert(hi == lo + 1);
        assert(is_root(lo as int, x as int));
        lemma_root_unique(lo as int, root(x as int), x as int);
    }
    lo as i32
}

} // verus!
